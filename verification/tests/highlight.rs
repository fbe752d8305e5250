use queuepeek::highlight::{
    highlight_json, highlight_search, highlight_xml, lines_of, plain_lines, styled_payload, Mark, Piece, Tone,
};

fn flat(lines: &[Vec<Piece>]) -> Vec<Vec<(Tone, String)>> {
    lines.iter().map(|l| l.iter().map(|p| (p.tone, p.text.clone())).collect()).collect()
}

fn p(t: Tone, s: &str) -> (Tone, String) {
    (t, s.to_string())
}

#[test]
fn lines_follow_str_lines() {
    assert_eq!(lines_of("a\r\nb\n\nc"), vec!["a", "b", "", "c"]);
    assert_eq!(lines_of("x\n"), vec!["x"]);
    assert!(lines_of("").is_empty());
}

#[test]
fn json_lines_are_cut_into_tokens() {
    let text = "{\n  \"a\": 1,\n  \"b\": \"x y\"\n}";
    let got = flat(&highlight_json(text));
    assert_eq!(
        got,
        vec![
            vec![p(Tone::Punct, "{")],
            vec![
                p(Tone::Blank, "  "),
                p(Tone::Key, "\"a\""),
                p(Tone::Punct, ":"),
                p(Tone::Blank, " "),
                p(Tone::Scalar, "1"),
                p(Tone::Punct, ","),
            ],
            vec![
                p(Tone::Blank, "  "),
                p(Tone::Key, "\"b\""),
                p(Tone::Punct, ":"),
                p(Tone::Blank, " "),
                p(Tone::Str, "\"x y\""),
            ],
            vec![p(Tone::Punct, "}")],
        ]
    );
}

#[test]
fn json_escapes_spaced_keys_and_scalars() {
    let got = flat(&highlight_json("\"k\" : \"a\\\"b\", true}"));
    assert_eq!(
        got,
        vec![vec![
            p(Tone::Key, "\"k\""),
            p(Tone::Blank, " "),
            p(Tone::Punct, ":"),
            p(Tone::Blank, " "),
            p(Tone::Str, "\"a\\\"b\""),
            p(Tone::Punct, ","),
            p(Tone::Blank, " "),
            p(Tone::Scalar, "true"),
            p(Tone::Punct, "}"),
        ]]
    );
}

#[test]
fn json_pieces_give_back_each_line() {
    let text = "[\n\t{\"x\": [1, 2.5e3, null], \"unterminated\n  \"q\\\\\": false\n]";
    let lines = lines_of(text);
    let got = highlight_json(text);
    assert_eq!(got.len(), lines.len());
    for (pieces, line) in got.iter().zip(lines.iter()) {
        let joined: String = pieces.iter().map(|p| p.text.as_str()).collect();
        assert_eq!(&joined, line);
        assert!(pieces.iter().all(|p| !p.text.is_empty()));
    }
}

#[test]
fn xml_tags_are_cut_into_brackets_names_and_attributes() {
    let got = flat(&highlight_xml("<a href=\"x\">text</a>\n<br/>\n<img src=\"a\" />\n<open"));
    assert_eq!(
        got,
        vec![
            vec![
                p(Tone::Angle, "<"),
                p(Tone::TagName, "a"),
                p(Tone::Attrs, " href=\"x\""),
                p(Tone::Angle, ">"),
                p(Tone::Content, "text"),
                p(Tone::Angle, "<"),
                p(Tone::TagName, "/a"),
                p(Tone::Angle, ">"),
            ],
            vec![p(Tone::Angle, "<"), p(Tone::TagName, "br"), p(Tone::Angle, "/>")],
            vec![
                p(Tone::Angle, "<"),
                p(Tone::TagName, "img"),
                p(Tone::Attrs, " src=\"a\" "),
                p(Tone::Angle, "/>"),
            ],
            vec![p(Tone::Angle, "<"), p(Tone::TagName, "open"), p(Tone::Angle, ">")],
        ]
    );
}

#[test]
fn payload_style_follows_the_format() {
    assert_eq!(flat(&styled_payload("{}", "json")), vec![vec![p(Tone::Punct, "{"), p(Tone::Punct, "}")]]);
    assert_eq!(flat(&styled_payload("<a>", "xml"))[0][1], p(Tone::TagName, "a"));
    assert_eq!(flat(&styled_payload("x\ny", "text")), vec![vec![p(Tone::Body, "x")], vec![p(Tone::Body, "y")]]);
    assert_eq!(flat(&plain_lines("{}")), vec![vec![p(Tone::Body, "{}")]]);
}

fn marks(lines: &[Vec<queuepeek::highlight::Painted>]) -> Vec<Vec<(Mark, String)>> {
    lines.iter().map(|l| l.iter().map(|p| (p.mark, p.text.clone())).collect()).collect()
}

#[test]
fn search_hits_are_cut_out_of_matching_lines() {
    let lines = plain_lines("Hello hello\nnothing here\nsay hello");
    let got = marks(&highlight_search(&lines, "HELLO", &vec![0, 2], 0));
    assert_eq!(
        got,
        vec![
            vec![
                (Mark::CurrentHit, "Hello".to_string()),
                (Mark::Backed, " ".to_string()),
                (Mark::CurrentHit, "hello".to_string()),
            ],
            vec![(Mark::Plain, "nothing here".to_string())],
            vec![(Mark::Plain, "say ".to_string()), (Mark::Hit, "hello".to_string())],
        ]
    );
}

#[test]
fn search_keeps_tones_and_empty_pieces() {
    let lines = vec![vec![
        Piece { tone: Tone::Key, text: "\"id\"".to_string() },
        Piece { tone: Tone::Blank, text: String::new() },
        Piece { tone: Tone::Str, text: "\"x\"".to_string() },
    ]];
    let got = highlight_search(&lines, "id", &vec![0], 5);
    let tuples: Vec<(Tone, Mark, String)> = got[0].iter().map(|p| (p.tone, p.mark, p.text.clone())).collect();
    assert_eq!(
        tuples,
        vec![
            (Tone::Key, Mark::Plain, "\"".to_string()),
            (Tone::Key, Mark::Hit, "id".to_string()),
            (Tone::Key, Mark::Plain, "\"".to_string()),
            (Tone::Blank, Mark::Plain, String::new()),
            (Tone::Str, Mark::Plain, "\"x\"".to_string()),
        ]
    );
}

#[test]
fn empty_query_marks_nothing() {
    let lines = plain_lines("abc");
    let got = marks(&highlight_search(&lines, "", &vec![0], 0));
    assert_eq!(got, vec![vec![(Mark::Plain, "abc".to_string())]]);
}

#[test]
fn search_marks_keep_the_text() {
    let lines = highlight_json("{\n  \"Name\": \"name NAME\",\n  \"n\": 1\n}");
    let painted = highlight_search(&lines, "name", &vec![1, 2], 0);
    assert_eq!(painted.len(), lines.len());
    for (p, l) in painted.iter().zip(lines.iter()) {
        let a: String = p.iter().map(|x| x.text.as_str()).collect();
        let b: String = l.iter().map(|x| x.text.as_str()).collect();
        assert_eq!(a, b);
    }
    let hits: Vec<&str> = painted[1].iter().filter(|x| x.mark == Mark::CurrentHit).map(|x| x.text.as_str()).collect();
    assert_eq!(hits, vec!["Name", "name", "NAME"]);
}
