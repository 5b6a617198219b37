# macrdp

The rules of a remote desktop server for one screen, written and proved in
Verus: what is sent to the client, when, and in which form.

The library (`src/`) holds

- the RDP8 bulk compressor (`zgfx`, with its codes and bit writer), and a
  decoder as a specification against which it is proved lossless
  (`zgfx_decode`);
- the way of a captured frame to the client: tiles and bitmaps (`frame`,
  `update`), the choice of path, bitrate and frame rate (`encode`,
  `encode_laws`, `progressive`, `rounding`), the display itself (`display`);
- the server: its channels and events (`channels`, `server`), client input
  (`client_input`), negotiation (`negotiation`), the graphics and display
  control channels (`gfx_channel`, `display_control`), and how sessions begin,
  are taken over and end (`session`, `disconnect`).

Sockets, TLS, the screen and the encoders are not in the library. Where a rule
depends on them, it is a function from what happened to what to do next;
`app/` carries out the one and reports the other. Laws that hold across
functions are public proof functions beside what they speak of.

Messages are read and written by the IronRDP crates. Each call to them stands
in a small function of its own, whose doc comment names what is called and
says what is relied on.
