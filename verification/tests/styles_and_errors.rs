use meson_fmt::{format_text, Configuration, ParseError};

fn with(f: impl Fn(&mut Configuration)) -> Configuration {
    let mut cfg = Configuration::default();
    f(&mut cfg);
    cfg
}

#[test]
fn nowrap_keeps_first_argument_on_header() {
    // with the default configuration a recognized call keeps its keyless
    // first argument on the header line even in multiline layout
    let cfg = Configuration::default();
    assert_eq!(
        format_text("executable('progname',\nsources: 'prog.c')", &cfg).unwrap(),
        "executable('progname',\n  sources: 'prog.c',\n)"
    );
    // an unrecognized call wraps every argument
    assert_eq!(
        format_text("helper('progname',\nsources: 'prog.c')", &cfg).unwrap(),
        "helper(\n  'progname',\n  sources: 'prog.c',\n)"
    );
}

#[test]
fn align_colon_pads_keys() {
    let cfg = with(|c| c.align_colon = true);
    assert_eq!(format_text("{'a':1,'bbb':2}", &cfg).unwrap(), "{'a'  : 1, 'bbb': 2}");
    assert_eq!(
        format_text("{\n'a':1,'bbb':2}", &cfg).unwrap(),
        "{\n  'a'  : 1,\n  'bbb': 2,\n}"
    );
    // item count, order and content stay those of the unaligned rendering
    let plain = with(|_| ());
    assert_eq!(
        format_text("{\n'a':1,'bbb':2}", &plain).unwrap(),
        "{\n  'a': 1,\n  'bbb': 2,\n}"
    );
}

#[test]
fn space_before_colon_pads_keys() {
    let cfg = with(|c| c.space_before_colon = true);
    assert_eq!(format_text("{'a':1,'bbb':2}", &cfg).unwrap(), "{'a' : 1, 'bbb' : 2}");
    let both = with(|c| {
        c.space_before_colon = true;
        c.align_colon = true;
    });
    assert_eq!(format_text("{'a':1,'bbb':2}", &both).unwrap(), "{'a'   : 1, 'bbb' : 2}");
}

#[test]
fn space_inner_bracket_pads_single_line_lists() {
    let cfg = with(|c| c.space_inner_bracket = true);
    assert_eq!(format_text("[1,2]", &cfg).unwrap(), "[ 1, 2 ]");
    // never applied to an empty list
    assert_eq!(format_text("[]", &cfg).unwrap(), "[]");
    assert_eq!(format_text("{}", &cfg).unwrap(), "{}");
    assert_eq!(format_text("()", &cfg).unwrap(), "()");
}

#[test]
fn wrap_close_brace_toggles_final_comma_and_line() {
    let on = Configuration::default();
    let off = with(|c| c.wrap_close_brace = false);
    assert_eq!(format_text("[\n1,2]", &on).unwrap(), "[\n  1,\n  2,\n]");
    assert_eq!(format_text("[\n1,2]", &off).unwrap(), "[\n  1,\n  2]");
}

#[test]
fn empty_lists_under_every_style() {
    for align in [false, true] {
        for sbc in [false, true] {
            for sib in [false, true] {
                for wrap in [false, true] {
                    for nowrap in [false, true] {
                        for width in [0u8, 2, 7] {
                            let cfg = Configuration {
                                indent_width: width,
                                align_colon: align,
                                space_before_colon: sbc,
                                space_inner_bracket: sib,
                                wrap_close_brace: wrap,
                                nowrap_before_name: nowrap,
                            };
                            assert_eq!(format_text("[]", &cfg).unwrap(), "[]");
                            assert_eq!(format_text("{}", &cfg).unwrap(), "{}");
                            assert_eq!(format_text("()", &cfg).unwrap(), "()");
                        }
                    }
                }
            }
        }
    }
}

#[test]
fn foreach_with_two_loop_variables() {
    let cfg = Configuration::default();
    assert_eq!(
        format_text("foreach a,b : d\nx=1\nendforeach", &cfg).unwrap(),
        "foreach a, b : d\n  x = 1\nendforeach"
    );
}

#[test]
fn trailing_comma_items_are_dropped() {
    let cfg = Configuration::default();
    assert_eq!(format_text("[5,]", &cfg).unwrap(), "[5]");
}

#[test]
fn unterminated_string_is_not_find_syntax_close() {
    let cfg = Configuration::default();
    assert_eq!(
        format_text("'abc", &cfg).unwrap_err(),
        ParseError::NotFindSyntaxClose("'".to_string())
    );
    assert_eq!(
        format_text("x = 'abc\n", &cfg).unwrap_err(),
        ParseError::NotFindSyntaxClose("'".to_string())
    );
    assert_eq!(
        format_text("'''abc''", &cfg).unwrap_err(),
        ParseError::NotFindSyntaxClose("'''".to_string())
    );
}

#[test]
fn unterminated_constructs_are_not_find_syntax_close() {
    let cfg = Configuration::default();
    assert_eq!(
        format_text("[1,2", &cfg).unwrap_err(),
        ParseError::NotFindSyntaxClose("[".to_string())
    );
    assert_eq!(
        format_text("f(1,2", &cfg).unwrap_err(),
        ParseError::NotFindSyntaxClose("(".to_string())
    );
    assert_eq!(
        format_text("if a\nx=1\n", &cfg).unwrap_err(),
        ParseError::NotFindSyntaxClose("if".to_string())
    );
    assert_eq!(
        format_text("foreach i : d\nx=1\n", &cfg).unwrap_err(),
        ParseError::NotFindSyntaxClose("foreach".to_string())
    );
}

#[test]
fn stray_closers_are_invalid_syntax_close() {
    let cfg = Configuration::default();
    assert_eq!(
        format_text("endif x", &cfg).unwrap_err(),
        ParseError::InvalidSyntaxClose("endif".to_string())
    );
    assert_eq!(
        format_text("endforeach x", &cfg).unwrap_err(),
        ParseError::InvalidSyntaxClose("endforeach".to_string())
    );
    assert_eq!(
        format_text("elif a\n", &cfg).unwrap_err(),
        ParseError::InvalidSyntaxClose("elif".to_string())
    );
    // a stray terminator of the other block kind inside a block
    assert_eq!(
        format_text("if a\nendforeach\n", &cfg).unwrap_err(),
        ParseError::InvalidSyntaxClose("endforeach".to_string())
    );
    assert_eq!(
        format_text("foreach i : d\nendif\n", &cfg).unwrap_err(),
        ParseError::InvalidSyntaxClose("endif".to_string())
    );
    // stray closing delimiters
    assert_eq!(
        format_text("x = 1)", &cfg).unwrap_err(),
        ParseError::InvalidSyntaxClose(")".to_string())
    );
    assert_eq!(
        format_text("]", &cfg).unwrap_err(),
        ParseError::InvalidSyntaxClose("]".to_string())
    );
}

#[test]
fn formatting_is_idempotent_on_formatted_text() {
    let cfg = Configuration::default();
    for src in [
        "project('demo', 'c')\nsrcs = ['a.c', 'b.c']\nexecutable('demo', srcs)\n",
        "if a == b\n  x = [1, 2]\nelse\n  y = {'k': 1}\nendif\n",
        "foreach i : items\n  # keep going\n  r += i\nendforeach\n",
        "d = 5 % 3 # note\n",
    ] {
        let once = format_text(src, &cfg).unwrap();
        let twice = format_text(&once, &cfg).unwrap();
        assert_eq!(once, twice);
    }
}

#[test]
fn parse_appends_on_success_only() {
    let cfg = Configuration::default();
    let chars: Vec<char> = "x=[1,2]".chars().collect();
    let mut stage = String::from("prefix ");
    assert!(meson_fmt::parse(&cfg, &chars, &mut stage).is_ok());
    assert_eq!(stage, "prefix x = [1, 2]");

    let bad: Vec<char> = "'abc".chars().collect();
    let mut stage = String::from("prefix ");
    assert_eq!(
        meson_fmt::parse(&cfg, &bad, &mut stage).unwrap_err(),
        ParseError::NotFindSyntaxClose("'".to_string())
    );
    assert_eq!(stage, "prefix ");
}

#[test]
fn error_messages_name_the_token() {
    let cfg = Configuration::default();
    let err = format_text("'abc", &cfg).unwrap_err();
    assert_eq!(err.message(), "not find the close of syntax: '");
    let err = format_text("endif x", &cfg).unwrap_err();
    assert_eq!(err.message(), "invalid the close of syntax: endif");
}
