use meowpdf::bar::{Bar, BarMode};
use meowpdf::commands::{
    ClearImages, DisableMouseCapturePixels, EnableMouseCapturePixels, PointerShape, SetPointerShape,
};
use meowpdf::graphics::{
    decimal, split, temp_file_name, terminal_graphics_apc_success, terminal_graphics_clear_images,
    terminal_graphics_deallocate_id, terminal_graphics_display_image,
    terminal_graphics_test_support, terminal_graphics_transfer_bitmap, GraphicsResponse,
};
use meowpdf::image::{DisplayCommand, TransferCommand};
use meowpdf::input::{
    parse_alphanumerical, parse_ctrlc, parse_ctrld, parse_graphics_response, parse_mouse,
    parse_number, parse_udrl_key, MouseEvent, MouseEventType, StdinInput, TerminalKey,
};

#[test]
fn decimal_writes_numbers() {
    assert_eq!(decimal(0), "0");
    assert_eq!(decimal(7), "7");
    assert_eq!(decimal(10), "10");
    assert_eq!(decimal(1234567890), "1234567890");
    assert_eq!(decimal(usize::MAX), format!("{}", usize::MAX));
}

#[test]
fn display_request_is_written_as_the_terminal_expects() {
    let command =
        DisplayCommand { id: 9, col: 3, row: 4, crop: (22, 18, 220, 320), cols: 11, rows: 16 };
    assert_eq!(
        terminal_graphics_display_image(&command),
        "\x1B[s\x1B[4;3H\x1B_Gz=-1073741825,a=p,C=1,i=9,x=22,y=18,w=220,h=320,c=11,r=16;\x1B\\\x1B[u"
    );
}

#[test]
fn transfer_request_carries_the_path_in_base64() {
    let command = TransferCommand { id: 7, width: 264, height: 364, alpha: true };
    let text = terminal_graphics_transfer_bitmap(&command, b"/tmp/tty-graphics-protocol-AB-7");
    assert_eq!(
        text.unwrap(),
        "\x1B_Gq=2,f=32,i=7,s=264,v=364,t=t;L3RtcC90dHktZ3JhcGhpY3MtcHJvdG9jb2wtQUItNw==\x1B\\"
    );
    let opaque = TransferCommand { id: 1, width: 2, height: 3, alpha: false };
    assert_eq!(
        terminal_graphics_transfer_bitmap(&opaque, b"a").unwrap(),
        "\x1B_Gq=2,f=24,i=1,s=2,v=3,t=t;YQ==\x1B\\"
    );
}

#[test]
fn fixed_requests_are_written() {
    assert_eq!(terminal_graphics_clear_images(), "\x1B_Ga=d,d=a\x1B\\");
    assert_eq!(terminal_graphics_test_support(), "\x1B_Gi=31,s=1,v=1,a=q,t=d,f=24;AAAA\x1B\\");
    assert_eq!(terminal_graphics_deallocate_id(12), "\x1B_Ga=d,d=I,i=12;\x1B\\");
    assert_eq!(temp_file_name("1F2E", 31), "tty-graphics-protocol-1F2E-31");
}

#[test]
fn commands_are_written() {
    assert_eq!(ClearImages.write_ansi(), "\x1B_Ga=d,d=a\x1B\\");
    assert_eq!(
        EnableMouseCapturePixels.write_ansi(),
        "\x1B[?1000h\x1B[?1002h\x1B[?1003h\x1B[?1015h\x1B[?1016h"
    );
    assert_eq!(
        DisableMouseCapturePixels.write_ansi(),
        "\x1B[?1016l\x1B[?1015l\x1B[?1003l\x1B[?1002l\x1B[?1000l"
    );
    assert_eq!(SetPointerShape(PointerShape::Default).write_ansi(), "\x1B]22;\x1B\\");
    assert_eq!(SetPointerShape(PointerShape::Pointer).write_ansi(), "\x1B]22;pointer\x1B\\");
    assert_eq!(SetPointerShape(PointerShape::Text).write_ansi(), "\x1B]22;text\x1B\\");
}

#[test]
fn bar_starts_in_view_mode() {
    assert!(matches!(Bar::new().mode, BarMode::VIEW));
    assert_eq!(Bar::new().render(24), "\x1B[24;1H\x1B[0m");
    let typing = Bar { mode: BarMode::COMMAND("w".to_string()) };
    assert_eq!(typing.render(0), "\x1B[0;1H\x1B[0m");
}

#[test]
fn acknowledgement_is_a_success_when_it_holds_ok() {
    assert!(terminal_graphics_apc_success(b"OK"));
    assert!(terminal_graphics_apc_success(b"xxOKyy"));
    assert!(!terminal_graphics_apc_success(b"ENOENT:no such file"));
    assert!(!terminal_graphics_apc_success(b"O K"));
    assert!(!terminal_graphics_apc_success(b"KO"));
    assert!(!terminal_graphics_apc_success(b"O"));
    assert!(!terminal_graphics_apc_success(b""));
}

#[test]
fn split_keeps_empty_pieces() {
    assert_eq!(split(b"a;;b", b';'), vec![b"a".to_vec(), Vec::new(), b"b".to_vec()]);
    assert_eq!(split(b"", b';'), vec![Vec::<u8>::new()]);
    assert_eq!(split(b";", b';'), vec![Vec::<u8>::new(), Vec::new()]);
    assert_eq!(split(b"abc", b';'), vec![b"abc".to_vec()]);
}

#[test]
fn response_is_taken_apart() {
    let mut response = GraphicsResponse::new(b"i=31,q=2,x,a=b=c;OK;rest");
    assert_eq!(response.payload(), b"OK");
    let control = response.control().clone();
    assert_eq!(
        control,
        vec![(b"i".to_vec(), b"31".to_vec()), (b"q".to_vec(), b"2".to_vec())]
    );
    assert_eq!(response.control().len(), 2);
    let bare = GraphicsResponse::new(b"i=1");
    assert_eq!(bare.payload(), b"");
}

#[test]
fn numbers_are_read() {
    assert_eq!(parse_number(b"0"), Some(0));
    assert_eq!(parse_number(b"007"), Some(7));
    assert_eq!(parse_number(b"1234"), Some(1234));
    assert_eq!(parse_number(format!("{}", usize::MAX).as_bytes()), Some(usize::MAX));
    assert_eq!(parse_number(b"99999999999999999999999"), None);
    assert_eq!(parse_number(b""), None);
    assert_eq!(parse_number(b"12a"), None);
    assert_eq!(parse_number(b"+1"), None);
}

#[test]
fn mouse_reports_are_decoded() {
    let event = |bytes: &[u8]| match parse_mouse(bytes) {
        Some(StdinInput::MouseEvent(e)) => Some(e),
        _ => None,
    };
    let key = |bytes: &[u8]| match parse_mouse(bytes) {
        Some(StdinInput::TerminalKey(k)) => Some(k),
        _ => None,
    };
    assert_eq!(
        event(b"\x1B[<0;120;45M"),
        Some(MouseEvent { x: 120, y: 45, event: MouseEventType::LCLICK })
    );
    assert_eq!(
        event(b"\x1B[<0;120;45m"),
        Some(MouseEvent { x: 120, y: 45, event: MouseEventType::LRELEASE })
    );
    assert_eq!(
        event(b"\x1B[<2;1;2M"),
        Some(MouseEvent { x: 1, y: 2, event: MouseEventType::RCLICK })
    );
    assert_eq!(
        event(b"\x1B[<2;1;2m"),
        Some(MouseEvent { x: 1, y: 2, event: MouseEventType::RRELEASE })
    );
    assert_eq!(
        event(b"\x1B[<35;7;8M"),
        Some(MouseEvent { x: 7, y: 8, event: MouseEventType::HOVER })
    );
    assert_eq!(key(b"\x1B[<64;7;8M"), Some(TerminalKey::DOWN));
    assert_eq!(key(b"\x1B[<65;7;8M"), Some(TerminalKey::UP));
    assert_eq!(key(b"\x1B[<66;7;8m"), Some(TerminalKey::RIGHT));
    assert_eq!(key(b"\x1B[<67;7;8M"), Some(TerminalKey::LEFT));
    assert!(parse_mouse(b"\x1B[<1;7;8M").is_none());
    assert!(parse_mouse(b"\x1B[<0;7M").is_none());
    assert!(parse_mouse(b"\x1B[<0;7;8;9M").is_none());
    assert!(parse_mouse(b"\x1B[<0;x;8M").is_none());
    assert!(parse_mouse(b"\x1B[").is_none());
}

#[test]
fn keys_are_decoded() {
    assert!(matches!(parse_ctrlc(b"\x03"), StdinInput::TerminalKey(TerminalKey::CTRLC)));
    assert!(matches!(parse_ctrld(b"\x04"), StdinInput::TerminalKey(TerminalKey::CTRLD)));
    assert!(matches!(
        parse_alphanumerical(b"q"),
        Some(StdinInput::TerminalKey(TerminalKey::OTHER(b'q')))
    ));
    assert!(parse_alphanumerical(b"").is_none());
    assert!(matches!(parse_udrl_key(b"\x1B[A"), Some(StdinInput::TerminalKey(TerminalKey::UP))));
    assert!(matches!(parse_udrl_key(b"\x1B[B"), Some(StdinInput::TerminalKey(TerminalKey::DOWN))));
    assert!(matches!(parse_udrl_key(b"\x1B[C"), Some(StdinInput::TerminalKey(TerminalKey::RIGHT))));
    assert!(matches!(parse_udrl_key(b"\x1B[D"), Some(StdinInput::TerminalKey(TerminalKey::LEFT))));
    assert!(parse_udrl_key(b"\x1B[E").is_none());
    assert!(parse_udrl_key(b"").is_none());
}

#[test]
fn acknowledgement_is_unwrapped() {
    match parse_graphics_response(b"\x1B_Gi=31;OK\x1B\\") {
        Some(StdinInput::GraphicsResponse(mut r)) => {
            assert_eq!(r.payload(), b"OK");
            assert_eq!(r.control().clone(), vec![(b"i".to_vec(), b"31".to_vec())]);
        }
        _ => panic!("an acknowledgement was expected"),
    }
    assert!(parse_graphics_response(b"\x1B_G\x1B").is_none());
}
