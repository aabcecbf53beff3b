use httpie::content::BodyStyle;
use httpie::highlight::highlight_body;
use httpie::highlight::HighlightedLine;
use httpie::render::{render_body, BodyOutput, Header, Rendered, ResponseView};

fn plain(escaped: &str) -> String {
    let mut out = String::new();
    let mut rest = escaped;
    while let Some(start) = rest.find('\u{1b}') {
        out.push_str(&rest[..start]);
        let end = rest[start..].find('m').unwrap();
        rest = &rest[start + end + 1..];
    }
    out.push_str(rest);
    out
}

#[test]
fn json_body_is_highlighted_line_by_line() {
    let lines = highlight_body("{\"a\":1}\n[2, 3]\n\nlast", "json").unwrap();
    assert_eq!(lines.len(), 4);
    assert_eq!(lines[0].source, "{\"a\":1}\n");
    assert_eq!(lines[1].source, "[2, 3]\n");
    assert_eq!(lines[2].source, "\n");
    assert_eq!(lines[3].source, "last");
    for line in &lines {
        assert!(line.escaped.contains("\u{1b}[38;2;"));
        assert!(line.escaped.contains("\u{1b}[48;2;"));
        assert_ne!(line.escaped, line.source);
        assert_eq!(plain(&line.escaped), line.source);
    }
}

#[test]
fn html_body_is_highlighted() {
    let lines = highlight_body("<p>hi</p>\n", "html").unwrap();
    assert_eq!(lines.len(), 1);
    assert_eq!(lines[0].source, "<p>hi</p>\n");
    assert_eq!(plain(&lines[0].escaped), "<p>hi</p>\n");
}

#[test]
fn empty_body_has_no_lines() {
    assert_eq!(highlight_body("", "json"), Some(Vec::new()));
}

#[test]
fn unknown_grammar_gives_nothing() {
    assert_eq!(highlight_body("text", "no-such-grammar"), None);
}

#[test]
fn raw_body_is_shown_unchanged() {
    assert_eq!(
        render_body(BodyStyle::Raw, "{\"a\":1}\nx"),
        Some(BodyOutput::Raw("{\"a\":1}\nx".to_string()))
    );
}

#[test]
fn styled_body_is_shown_highlighted() {
    match render_body(BodyStyle::Json, "{\"a\":1}") {
        Some(BodyOutput::Highlighted(lines)) => {
            assert_eq!(lines.len(), 1);
            assert_eq!(lines[0].source, "{\"a\":1}");
        }
        other => panic!("unexpected output: {:?}", other),
    }
}

#[test]
fn response_is_laid_out_in_order() {
    let view = ResponseView {
        version: "HTTP/1.1".to_string(),
        status: 200,
        headers: vec![
            Header { name: "X".to_string(), value: "1".to_string() },
            Header { name: "content-type".to_string(), value: "application/json".to_string() },
        ],
        body: "{\"a\":1}".to_string(),
    };
    colored::control::set_override(true);
    let rendered = view.render().unwrap();
    assert_eq!(rendered.status, "\u{1b}[34mHTTP/1.1 200\u{1b}[0m");
    assert_eq!(
        rendered.headers,
        vec![
            "\u{1b}[32mX\u{1b}[0m: 1".to_string(),
            "\u{1b}[32mcontent-type\u{1b}[0m: application/json".to_string()
        ]
    );
    assert_eq!(view.status_shown(), "\u{1b}[34mHTTP/1.1 200\u{1b}[0m");
    assert_eq!(view.headers[0].shown(), "\u{1b}[32mX\u{1b}[0m: 1");
    let odd = Header { name: "a\u{1b}[0mb".to_string(), value: "v".to_string() };
    assert_eq!(odd.shown(), "\u{1b}[32ma\u{1b}[0m\u{1b}[32mb\u{1b}[0m: v");
    colored::control::set_override(false);
    assert_eq!(odd.shown(), "a\u{1b}[0mb: v");
    assert_eq!(view.status_shown(), "HTTP/1.1 200");
    assert_eq!(
        view.headers_shown(),
        vec!["X: 1".to_string(), "content-type: application/json".to_string()]
    );
    colored::control::unset_override();
    match rendered.body {
        BodyOutput::Highlighted(lines) => {
            assert_eq!(lines.len(), 1);
            assert_eq!(lines[0].source, "{\"a\":1}");
            assert_eq!(plain(&lines[0].escaped), "{\"a\":1}");
        }
        other => panic!("unexpected output: {:?}", other),
    }
}

#[test]
fn response_without_content_type_keeps_its_body() {
    let view = ResponseView {
        version: "HTTP/1.0".to_string(),
        status: 500,
        headers: Vec::new(),
        body: "<p>\n".to_string(),
    };
    let rendered = view.render().unwrap();
    assert_eq!(plain(&rendered.status), "HTTP/1.0 500");
    assert!(rendered.headers.is_empty());
    assert_eq!(rendered.body, BodyOutput::Raw("<p>\n".to_string()));
}

#[test]
fn output_is_status_headers_body_with_blank_lines_between() {
    let rendered = Rendered {
        status: "HTTP/1.1 200".to_string(),
        headers: vec!["a: 1".to_string(), "b: 2".to_string()],
        body: BodyOutput::Raw("body\ntext".to_string()),
    };
    assert_eq!(
        rendered.output(),
        vec![
            "HTTP/1.1 200".to_string(),
            String::new(),
            "a: 1".to_string(),
            "b: 2".to_string(),
            String::new(),
            "body\ntext".to_string()
        ]
    );
    let rendered = Rendered {
        status: "HTTP/1.1 404".to_string(),
        headers: Vec::new(),
        body: BodyOutput::Highlighted(vec![
            HighlightedLine { source: "x\n".to_string(), escaped: "<x>\n".to_string() },
            HighlightedLine { source: "y".to_string(), escaped: "<y>".to_string() },
        ]),
    };
    assert_eq!(
        rendered.output(),
        vec![
            "HTTP/1.1 404".to_string(),
            String::new(),
            String::new(),
            "<x>\n".to_string(),
            "<y>".to_string()
        ]
    );
}

#[test]
fn escaped_line_is_pieces_behind_colour_sequences() {
    let lines = highlight_body("{\"a\": true}\n", "json").unwrap();
    assert_eq!(lines.len(), 1);
    let escaped = &lines[0].escaped;
    assert!(escaped.starts_with("\u{1b}[48;2;"));
    let mut text = String::new();
    for piece in escaped.split("\u{1b}[48;2;").skip(1) {
        let (back, rest) = piece.split_once('m').unwrap();
        assert_eq!(back.split(';').count(), 3);
        assert!(back.split(';').all(|part| part.parse::<u8>().is_ok()));
        let rest = rest.strip_prefix("\u{1b}[38;2;").unwrap();
        let (fore, shown) = rest.split_once('m').unwrap();
        assert_eq!(fore.split(';').count(), 3);
        assert!(fore.split(';').all(|part| part.parse::<u8>().is_ok()));
        assert!(!shown.is_empty());
        text.push_str(shown);
    }
    assert_eq!(text, lines[0].source);
}

#[test]
fn equal_bodies_are_highlighted_alike() {
    let body = "<p class=\"x\">hi</p>\n<!-- note -->\n";
    assert_eq!(highlight_body(body, "html"), highlight_body(body, "html"));
    assert_eq!(highlight_body(body, "json"), highlight_body(body, "json"));
}

#[test]
fn html_with_style_and_script_is_highlighted() {
    let body = "<html>\n<head>\n<style>\nbody { color: #fff; margin: 0 auto; }\n</style>\n\
<script>\nvar x = {a: [1, 2], b: \"s\"}; function f(y) { return y + 1; }\n</script>\n\
</head>\n<body class=\"c\"><!-- note --><a href=\"/x?y=1&amp;z\">t</a></body>\n</html>\n";
    let lines = highlight_body(body, "html").unwrap();
    let mut joined = String::new();
    for line in &lines {
        assert_eq!(plain(&line.escaped), line.source);
        joined.push_str(&line.source);
    }
    assert_eq!(joined, body);
    assert_eq!(lines.len(), 11);
}

#[test]
fn earlier_lines_change_the_colours_of_later_ones() {
    let alone = highlight_body("x */ y\n", "html").unwrap();
    let after = highlight_body("<script>/*\nx */ y\n", "html").unwrap();
    assert_eq!(alone[0].source, after[1].source);
    assert_ne!(alone[0].escaped, after[1].escaped);
}
