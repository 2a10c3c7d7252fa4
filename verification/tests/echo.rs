use nrf_unifying::buffer::ByteBuf;
use nrf_unifying::echo::{greeting, Echo, EchoAction, EchoInput};

#[test]
fn greets_until_the_greeting_is_taken() {
    assert_eq!(greeting(), b"Hello, World! from nRF52840 USB CDC\r\n");
    let mut echo = Echo::new();
    assert_eq!(echo.action(), EchoAction::Poll);
    echo.step(&EchoInput::Polled(false));
    assert_eq!(echo.action(), EchoAction::Poll);
    for answer in [EchoInput::Blocked, EchoInput::Failed, EchoInput::Wrote(5)] {
        echo.step(&EchoInput::Polled(true));
        assert_eq!(echo.action(), EchoAction::Greet);
        echo.step(&answer);
        assert_eq!(echo.action(), EchoAction::Read);
        echo.step(&EchoInput::Blocked);
    }
    echo.step(&EchoInput::Polled(true));
    echo.step(&EchoInput::Wrote(greeting().len()));
    echo.step(&EchoInput::Got(ByteBuf::new()));
    echo.step(&EchoInput::Polled(true));
    assert_eq!(echo.action(), EchoAction::Read);
}

#[test]
fn sends_everything_back() {
    let mut echo = Echo::new();
    echo.step(&EchoInput::Polled(true));
    echo.step(&EchoInput::Wrote(greeting().len()));
    echo.step(&EchoInput::Got(ByteBuf::from_slice(b"hello")));
    assert_eq!(echo.action(), EchoAction::WriteBack);
    assert_eq!(echo.pending.as_slice(), b"hello");
    echo.step(&EchoInput::Blocked);
    echo.step(&EchoInput::Wrote(0));
    assert_eq!(echo.pending.as_slice(), b"hello");
    echo.step(&EchoInput::Wrote(2));
    assert_eq!(echo.pending.as_slice(), b"llo");
    echo.step(&EchoInput::Wrote(3));
    assert_eq!(echo.action(), EchoAction::Poll);
    echo.step(&EchoInput::Polled(true));
    echo.step(&EchoInput::Got(ByteBuf::from_slice(b"again")));
    echo.step(&EchoInput::Failed);
    assert_eq!(echo.action(), EchoAction::Poll);
}
