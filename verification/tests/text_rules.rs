use tixml2svd::access::access_text;
use tixml2svd::dedup::unique_name;
use tixml2svd::diag::Diag;
use tixml2svd::text::{replace_all, starts_with, str_eq, trim};

#[test]
fn trim_strips_both_ends() {
    assert_eq!(trim("  a b\t"), "a b");
    assert_eq!(trim("abc"), "abc");
    assert_eq!(trim("   \t\n"), "");
    assert_eq!(trim(""), "");
    // a no-break space is whitespace too
    assert_eq!(trim("\u{00A0}x\u{00A0}"), "x");
}

#[test]
fn replace_rewrites_every_occurrence() {
    assert_eq!(replace_all("Cortex_M4", "Cortex_", "C"), "CM4");
    assert_eq!(replace_all("a-b-c", "-", "_"), "a_b_c");
    assert_eq!(replace_all("plain", "-", "_"), "plain");
    assert_eq!(replace_all("", "-", "_"), "");
}

#[test]
fn prefix_test() {
    assert!(starts_with("../Modules/uart.xml", "../Modules/"));
    assert!(!starts_with("Modules/uart.xml", "../Modules/"));
    assert!(!starts_with("..", "../Modules/"));
}

#[test]
fn string_equality_by_contents() {
    assert!(str_eq(&String::from("cpu"), "cpu"));
    assert!(!str_eq(&String::from("cpus"), "cpu"));
}

#[test]
fn access_codes_map_to_target_vocabulary() {
    assert_eq!(access_text(&String::from("RO")), Some(String::from("read")));
    assert_eq!(access_text(&String::from("WO")), Some(String::from("write")));
    assert_eq!(
        access_text(&String::from("RW")),
        Some(String::from("read-write"))
    );
    assert_eq!(access_text(&String::from("RA")), None);
    assert_eq!(access_text(&String::from("")), None);
}

#[test]
fn register_names_gain_underscores_until_unique() {
    let mut used: Vec<String> = Vec::new();
    let mut diags: Vec<Diag> = Vec::new();
    let a = unique_name(&mut used, String::from("CTRL"), &mut diags);
    let b = unique_name(&mut used, String::from("CTRL"), &mut diags);
    let c = unique_name(&mut used, String::from("CTRL"), &mut diags);
    assert_eq!(a, "CTRL");
    assert_eq!(b, "CTRL_");
    assert_eq!(c, "CTRL__");
    // one collision for the second use, two for the third
    assert_eq!(diags.len(), 3);
    assert!(matches!(&diags[0], Diag::NonUniqueRegisterName { name } if name == "CTRL"));
    assert!(matches!(&diags[2], Diag::NonUniqueRegisterName { name } if name == "CTRL_"));
}
