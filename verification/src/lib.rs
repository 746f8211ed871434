//! Control logic of a WeAct STM32H7 board with an SPI display, an nRF24L01
//! radio and a UART console: menu navigation, radio polling, UART line
//! assembly and the drawing commands of the status screen.

pub mod bounded;
pub mod display;
pub mod menu;
pub mod radio;
pub mod text;
pub mod uart_line;
