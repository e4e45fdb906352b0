use cslt::number::is_float_literal_exec;

fn accepts(s: &str) -> bool {
    let chars: Vec<char> = s.chars().collect();
    is_float_literal_exec(&chars)
}

#[test]
fn float_literals_that_parse() {
    for s in [
        "3", "3.0", ".5", "5.", "+1", "-0.25", "1e5", "1E5", "1e+5", "2.5e-3", "inf", "-inf",
        "+Infinity", "INFINITY", "NaN", "nan", "-nan", "007", "1e999",
    ] {
        assert!(accepts(s), "{s}");
        assert!(s.parse::<f32>().is_ok(), "{s}");
    }
}

#[test]
fn float_literals_that_do_not_parse() {
    for s in [
        "", ".", "+", "-", "e5", "1e", "1e+", "abc", "1.2.3", " 3", "3 ", "1_000", "infin", "+-1",
        "0x10", "1,5", "..5", "1e5.0", "ｉnf",
    ] {
        assert!(!accepts(s), "{s}");
        assert!(s.parse::<f32>().is_err(), "{s}");
    }
}
