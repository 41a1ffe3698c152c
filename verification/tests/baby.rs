use netlab::baby::{consume_line, hello_world, listing_header, listing_line, op_code, Assembler};

fn assemble(line: &str) -> (bool, String) {
    let mut result = String::new();
    let ok = consume_line(&line.to_string(), &mut result);
    (ok, result)
}

#[test]
fn hello_world_returns_its_argument() {
    assert_eq!(hello_world(String::from("pippo")), "pippo");
    assert_eq!(hello_world(String::new()), "");
}

#[test]
fn op_code_table() {
    assert_eq!(op_code("JMP"), (Some("000"), true));
    assert_eq!(op_code("JRP"), (Some("001"), true));
    assert_eq!(op_code("LDN"), (Some("010"), true));
    assert_eq!(op_code("STO"), (Some("011"), true));
    assert_eq!(op_code("SUB"), (Some("100"), true));
    assert_eq!(op_code("CMP"), (Some("110"), false));
    assert_eq!(op_code("STP"), (Some("111"), false));
    assert_eq!(op_code("ADD"), (None, false));
    assert_eq!(op_code("ldn"), (None, false));
    assert_eq!(op_code(""), (None, false));
}

#[test]
fn consume_line_with_address() {
    let (ok, word) = assemble("00 LDN 20");
    assert!(ok);
    assert_eq!(word, format!("{}010{}10100", "0".repeat(16), "0".repeat(8)));
    assert_eq!(word, "00000000000000000100000000010100");
}

#[test]
fn consume_line_without_address() {
    let (ok, word) = assemble("07 STP");
    assert!(ok);
    assert_eq!(word, format!("{}111{}", "0".repeat(16), "0".repeat(13)));
    let (ok, word) = assemble("08 CMP 4");
    assert!(ok);
    assert_eq!(word, format!("{}110{}", "0".repeat(16), "0".repeat(13)));
}

#[test]
fn consume_line_address_edges() {
    let (ok, word) = assemble("1 JMP 31");
    assert!(ok);
    assert_eq!(word, format!("{}000{}11111", "0".repeat(16), "0".repeat(8)));
    let (ok, word) = assemble("1 SUB 0");
    assert!(ok);
    assert_eq!(word, format!("{}100{}00000", "0".repeat(16), "0".repeat(8)));
    let (ok, word) = assemble("1 STO +5");
    assert!(ok);
    assert_eq!(word, format!("{}011{}00101", "0".repeat(16), "0".repeat(8)));
    let (ok, _) = assemble("1 STO 5 extra words");
    assert!(ok);
}

#[test]
fn consume_line_errors() {
    let zeros16 = "0".repeat(16);
    assert_eq!(assemble(""), (false, zeros16.clone()));
    assert_eq!(assemble("LDN"), (false, zeros16.clone()));
    assert_eq!(assemble("1 XYZ 3"), (false, zeros16.clone()));
    assert_eq!(assemble("1 LDN"), (false, format!("{}010", zeros16)));
    assert_eq!(assemble("1 LDN 32"), (false, format!("{}010", zeros16)));
    assert_eq!(assemble("1 LDN -1"), (false, format!("{}010", zeros16)));
    assert_eq!(assemble("1 LDN x"), (false, format!("{}010", zeros16)));
    assert_eq!(assemble("1  LDN 3"), (false, zeros16.clone()));
    assert_eq!(assemble("1 LDN 99999999999"), (false, format!("{}010", zeros16)));
}

#[test]
fn listing_lines() {
    assert_eq!(listing_header(), format!("0: {}", "0".repeat(32)));
    assert_eq!(listing_line(12, &String::from("0011")), "12: 1100");
    assert_eq!(listing_line(0, &String::new()), "0: ");
}

#[test]
fn assembler_numbers_words() {
    let mut a = Assembler::new();
    let first = a.step(&String::from("00 LDN 20")).unwrap();
    assert_eq!(first, format!("1: 00101{}010{}", "0".repeat(8), "0".repeat(16)));
    assert_eq!(a.index, 1);
    assert!(a.step(&String::from("01 BAD")).is_none());
    assert_eq!(a.index, 1);
    let second = a.step(&String::from("02 STP")).unwrap();
    assert!(second.starts_with("2: "));
    assert_eq!(a.index, 2);
}

#[test]
fn assembled_words_are_32_bits() {
    for line in ["0 JMP 1", "0 JRP 2", "0 LDN 3", "0 STO 4", "0 SUB 5", "0 CMP", "0 STP"] {
        let (ok, word) = assemble(line);
        assert!(ok);
        assert_eq!(word.len(), 32);
        assert!(word.chars().all(|c| c == '0' || c == '1'));
    }
}

#[test]
fn address_field_reads_back() {
    for n in 0..32u32 {
        let (ok, word) = assemble(&format!("9 LDN {}", n));
        assert!(ok);
        assert_eq!(u32::from_str_radix(&word[27..], 2).unwrap(), n);
    }
}
