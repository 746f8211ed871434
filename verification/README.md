# eomi_weact

Control logic of a WeAct STM32H7 board with an ILI9486 SPI display, an
nRF24L01 radio and a UART console, verified with Verus.

- `src/menu.rs`: menu selection by the up and down buttons.
- `src/uart_line.rs`: collection of UART bytes into lines for the display.
- `src/display.rs`: the drawing operations of each screen refresh and of a
  received message.
- `src/radio.rs`: the radio configuration and the decision of each poll.
- `src/bounded.rs`, `src/text.rs`: contracts of the `heapless` buffers and of
  UTF-8 decoding that the logic relies on.
- `app/`: the firmware tasks that read the buttons, drive the display, the
  radio and the UART, and call the library for every decision.
