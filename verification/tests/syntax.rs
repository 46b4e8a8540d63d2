use nano::definitions::{LineNode, ENDSHERE, JUSTONTHIS, NOTHING, STARTSHERE, WHOLELINE};
use nano::syntax::{
    check_the_multis, compile_pattern, find_and_prime_applicable_syntax, found_in_list,
    move_syntax_to_head, precalc_multicolorinfo, set_syntax_colorpairs, ColorType, CompiledPattern,
    RegexListType,
    SyntaxType,
};

fn pattern(source: &str) -> CompiledPattern {
    compile_pattern(source, false).unwrap()
}

fn list(sources: &[&str]) -> Vec<RegexListType> {
    sources
        .iter()
        .map(|s| RegexListType { one_rgx: Some(pattern(s)) })
        .collect()
}

fn rule(id: i16, fg: i16, bg: i16, start: &str, end: Option<&str>) -> ColorType {
    ColorType {
        id,
        fg,
        bg,
        pairnum: 0,
        attributes: 0,
        start: Some(pattern(start)),
        end: end.map(pattern),
    }
}

fn syntax(name: &str, extensions: &[&str], headers: &[&str], color: Vec<ColorType>) -> SyntaxType {
    let multiscore = color.iter().filter(|c| c.end.is_some()).count() as i16;
    SyntaxType {
        name: name.to_string(),
        filename: String::new(),
        lineno: 0,
        augmentations: Vec::new(),
        extensions: list(extensions),
        headers: list(headers),
        magics: Vec::new(),
        linter: None,
        formatter: None,
        tabstring: None,
        comment: None,
        color,
        multiscore,
    }
}

fn lines(texts: &[&str]) -> Vec<LineNode> {
    texts.iter().map(|t| LineNode::from_bytes(t.as_bytes())).collect()
}

#[test]
fn regex_lists_scan_malformed_utf8_as_raw_bytes() {
    let regex = compile_pattern("tag$", false).unwrap();
    let list = vec![RegexListType { one_rgx: Some(regex) }];

    assert!(found_in_list(&list, b"\xfftag"));
    assert!(!found_in_list(&list, b"\xfftag!"));
}

#[test]
fn invalid_patterns_do_not_compile() {
    assert!(compile_pattern("(", false).is_none());
    let p = compile_pattern("abc", true).unwrap();
    assert_eq!(p.source(), "abc");
    assert!(p.icase());
    assert!(found_in_list(&vec![RegexListType { one_rgx: Some(p) }], b"xABCx"));
    assert!(!found_in_list(&list(&["abc"]), b"xABCx"));
    assert!(!found_in_list(&vec![RegexListType { one_rgx: None }], b"abc"));
}

#[test]
fn identical_colour_combinations_share_a_pair_number() {
    let mut s = syntax(
        "c",
        &[],
        &[],
        vec![rule(0, 1, 2, "a", None), rule(0, 3, 4, "b", None), rule(0, 1, 2, "c", None)],
    );
    s.color[1].attributes = 0x100;
    set_syntax_colorpairs(&mut s);
    let numbers: Vec<i16> = s.color.iter().map(|c| c.pairnum).collect();
    assert_eq!(numbers, vec![13, 14, 13]);
    assert_eq!(s.color[0].attributes, 13);
    assert_eq!(s.color[1].attributes, 0x100 | 14);
    assert_eq!(s.color[2].attributes, 13);
}

#[test]
fn syntax_is_chosen_by_override_name_first_line_or_default() {
    let mut syns = vec![
        syntax("c", &[r"\.c$"], &[], vec![rule(0, 1, 2, "int", None)]),
        syntax("sh", &[r"\.sh$"], &["^#!.*sh"], vec![]),
        syntax("default", &[], &[], vec![]),
    ];

    let c = find_and_prime_applicable_syntax(&mut syns, None, false, b"/tmp/x.c", b"", false, None)
        .unwrap();
    assert_eq!(c.syntax, Some(0));
    assert!(!c.unknown_name);
    assert!(!c.needs_parse);
    assert_eq!(syns[0].color[0].pairnum, 13);

    let c = find_and_prime_applicable_syntax(&mut syns, None, false, b"/tmp/run", b"#!/bin/sh", false, None)
        .unwrap();
    assert_eq!(c.syntax, Some(1));

    let c = find_and_prime_applicable_syntax(&mut syns, None, false, b"/tmp/notes", b"hello", false, None)
        .unwrap();
    assert_eq!(c.syntax, Some(2));

    let c = find_and_prime_applicable_syntax(&mut syns, Some("sh"), false, b"/tmp/x.c", b"", false, None)
        .unwrap();
    assert_eq!(c.syntax, Some(1));

    let c = find_and_prime_applicable_syntax(&mut syns, Some("perl"), false, b"/tmp/x.c", b"", false, None)
        .unwrap();
    assert!(c.unknown_name);
    assert_eq!(c.syntax, Some(0));

    let c = find_and_prime_applicable_syntax(&mut syns, Some("perl"), true, b"/tmp/x.c", b"", false, None)
        .unwrap();
    assert!(!c.unknown_name);
    assert_eq!(c.syntax, None);

    assert!(find_and_prime_applicable_syntax(&mut syns, Some("none"), false, b"/tmp/x.c", b"", false, None)
        .is_none());
    assert!(find_and_prime_applicable_syntax(&mut Vec::new(), None, false, b"/tmp/x.c", b"", false, None)
        .is_none());
}

#[test]
fn file_type_is_consulted_only_when_asked() {
    let mut py = syntax("python", &[], &[], vec![]);
    py.magics = list(&["Python script"]);
    py.filename = "python.nanorc".to_string();
    let mut syns = vec![py];
    let c = find_and_prime_applicable_syntax(
        &mut syns,
        None,
        false,
        b"/tmp/tool",
        b"",
        true,
        Some(b"Python script, ASCII text".as_slice()),
    )
    .unwrap();
    assert_eq!(c.syntax, Some(0));
    assert!(c.needs_parse);
    let c = find_and_prime_applicable_syntax(
        &mut syns,
        None,
        false,
        b"/tmp/tool",
        b"",
        false,
        Some(b"Python script, ASCII text".as_slice()),
    )
    .unwrap();
    assert_eq!(c.syntax, None);
}

#[test]
fn multi_line_states_follow_comment_blocks() {
    let s = syntax("c", &[], &[], vec![rule(0, 1, 2, r"/\*", Some(r"\*/"))]);
    let file = lines(&["x /* a", "b", "c */ y", "z", "/* one */", "p /*", "q"]);
    let mut md: Vec<Vec<i16>> = vec![Vec::new(); file.len()];
    precalc_multicolorinfo(Some(&s), false, &file, &mut md, true);
    assert_eq!(
        md,
        vec![
            vec![STARTSHERE],
            vec![WHOLELINE],
            vec![ENDSHERE],
            vec![NOTHING],
            vec![JUSTONTHIS],
            vec![STARTSHERE],
            vec![WHOLELINE],
        ]
    );

    let mut untouched: Vec<Vec<i16>> = vec![Vec::new(); file.len()];
    precalc_multicolorinfo(Some(&s), true, &file, &mut untouched, true);
    assert_eq!(untouched, vec![Vec::<i16>::new(); file.len()]);
}

#[test]
fn changed_lines_ask_for_a_repaint() {
    let s = syntax("c", &[], &[], vec![rule(0, 1, 2, r"/\*", Some(r"\*/"))]);

    let (mut refresh, mut perturbed) = (false, false);
    check_the_multis(Some(&s), b"x /* a", &vec![STARTSHERE], &mut refresh, &mut perturbed);
    assert!(!refresh && !perturbed);

    check_the_multis(Some(&s), b"x /* a", &vec![NOTHING], &mut refresh, &mut perturbed);
    assert!(refresh && perturbed);

    let (mut refresh, mut perturbed) = (false, false);
    check_the_multis(Some(&s), b"x /* a", &Vec::new(), &mut refresh, &mut perturbed);
    assert!(refresh && !perturbed);

    let (mut refresh, mut perturbed) = (false, false);
    check_the_multis(Some(&s), b"/* a */ b", &vec![JUSTONTHIS], &mut refresh, &mut perturbed);
    assert!(!refresh && !perturbed);
    check_the_multis(None, b"/* a", &vec![NOTHING], &mut refresh, &mut perturbed);
    assert!(!refresh && !perturbed);
}

#[test]
fn a_syntax_moves_to_the_front_by_name() {
    let mut syns = vec![syntax("a", &[], &[], vec![]), syntax("b", &[], &[], vec![]), syntax("c", &[], &[], vec![])];
    move_syntax_to_head(&mut syns, "c");
    let names: Vec<&str> = syns.iter().map(|s| s.name.as_str()).collect();
    assert_eq!(names, vec!["c", "a", "b"]);
    move_syntax_to_head(&mut syns, "c");
    move_syntax_to_head(&mut syns, "zz");
    let names: Vec<&str> = syns.iter().map(|s| s.name.as_str()).collect();
    assert_eq!(names, vec!["c", "a", "b"]);
}
