use wasmstation::trace::{tracef, TracePiece};

fn render(pieces: &[TracePiece]) -> String {
    let mut out = String::new();
    for piece in pieces {
        match piece {
            TracePiece::Char(c) => out.push(char::from_u32(*c).unwrap()),
            TracePiece::Float(bits) => out.push_str(&f64::from_bits(*bits).to_string()),
        }
    }
    out
}

#[test]
fn tracef_float() {
    assert_eq!(
        "0.473;0.856",
        render(&tracef(b"%f;%f", bytemuck::cast_slice(&[0.473f64, 0.856]), &[]))
    );
}

#[test]
fn tracef_int() {
    assert_eq!(
        "4082;8088",
        render(&tracef(b"%d;%d", bytemuck::cast_slice(&[4082i32, 8088i32]), &[]))
    )
}

#[test]
fn tracef_str() {
    assert_eq!(
        "here's your str: 'inner string!'",
        render(&tracef(
            b"here's your str: '%s'",
            bytemuck::cast_slice(&[11u32]),
            "before the inner string!".as_bytes()
        ))
    )
}

#[test]
fn tracef_char() {
    assert_eq!(
        "exclamation mark: !; ampersand: &",
        render(&tracef(
            b"exclamation mark: %c; ampersand: %c",
            bytemuck::cast_slice::<char, u8>(&['!', '&']),
            &[]
        ))
    )
}

#[test]
fn tracef_mixes_int_and_float() {
    let mut args = 42i32.to_le_bytes().to_vec();
    args.extend_from_slice(&3.5f64.to_le_bytes());
    assert_eq!("42;3.5", render(&tracef(b"%d;%f", &args, &[])));
}

#[test]
fn tracef_negative_and_hex_print_decimal() {
    let args: Vec<u8> = [(-17i32).to_le_bytes(), 255i32.to_le_bytes()].concat();
    assert_eq!("-17 255", render(&tracef(b"%d %x", &args, &[])));
}

#[test]
fn tracef_invalid_char_is_bang() {
    let args = 0xd800u32.to_le_bytes();
    assert_eq!("[!]", render(&tracef(b"[%c]", &args, &[])));
}

#[test]
fn tracef_stops_where_arguments_run_out() {
    let args = 7i32.to_le_bytes();
    assert_eq!("7 and ", render(&tracef(b"%d and %d!", &args, &[])));
}

#[test]
fn tracef_unknown_specifier_and_terminator() {
    assert_eq!("100%q", render(&tracef(b"100%%q\0ignored", &[], &[])));
    assert_eq!("a%b", render(&tracef(b"a%%b", &[], &[])));
    assert_eq!("a", render(&tracef(b"a%", &[], &[])));
}

#[test]
fn tracef_stops_at_a_string_address_outside_memory() {
    let args = 100u32.to_le_bytes();
    assert_eq!("x", render(&tracef(b"x%sA", &args, b"short")));
}
