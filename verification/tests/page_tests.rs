use cslt::page::{
    courses_from_rows, first_cleaned_text, serialize_string, DetailsPage, PageError,
    SelectResultPage,
};

fn row(cells: &[&str]) -> Vec<String> {
    cells.iter().map(|c| c.to_string()).collect()
}

fn parse_error_message(e: PageError) -> String {
    match e {
        PageError::ParseError(m) => m,
        other => panic!("expected a parse error, got {}", other.to_string()),
    }
}

#[test]
fn serialize_string_strips_breaks_tabs_and_ends() {
    assert_eq!(serialize_string("\r\n\t  Hello World  \t\r\n"), "Hello World");
    assert_eq!(serialize_string("a\rb\nc\td"), "abcd");
    assert_eq!(serialize_string(""), "");
    assert_eq!(serialize_string(" \n \t "), "");
}

#[test]
fn serialize_string_deletes_runs_of_sixteen_spaces() {
    let sixteen = " ".repeat(16);
    assert_eq!(serialize_string(&format!("A{}B", sixteen)), "AB");
    assert_eq!(serialize_string(&format!("A{} B", sixteen)), "A B");
    assert_eq!(serialize_string(&format!("A{}{}B", sixteen, sixteen)), "AB");
    assert_eq!(serialize_string(&format!("A{}B", " ".repeat(15))), format!("A{}B", " ".repeat(15)));
    // The line break goes first, so the spaces around it join into one run.
    assert_eq!(serialize_string(&format!("A{}\n{}B", " ".repeat(8), " ".repeat(8))), "AB");
}

#[test]
fn serialize_string_trims_unicode_white_space() {
    assert_eq!(serialize_string("\u{3000}王小明\u{3000}"), "王小明");
    assert_eq!(serialize_string("\u{a0}x\u{2003}"), "x");
    assert_eq!(serialize_string("\u{200b}x"), "\u{200b}x");
}

#[test]
fn serialize_string_is_idempotent_on_examples() {
    for s in ["  a  b  ", "\t\tX\r\n", "a                 b", "\u{3000} z \u{3000}"] {
        let once = serialize_string(s);
        assert_eq!(serialize_string(&once), once);
    }
}

#[test]
fn first_cleaned_text_takes_the_first_match() {
    let texts = Some(vec!["\n  Alice \n".to_string(), "Bob".to_string()]);
    assert_eq!(first_cleaned_text(texts, "missing").ok().unwrap(), "Alice");
    let err = first_cleaned_text(Some(vec![]), "missing").err().unwrap();
    assert_eq!(parse_error_message(err), "missing");
    let err = first_cleaned_text(None, "missing").err().unwrap();
    assert_eq!(err.to_string(), "Other Error: Invalid selector");
}

#[test]
fn courses_from_rows_reads_each_row() {
    let rows = vec![
        row(&["AT2003301", " 計算機概論 ", "3.0", "必", "王老師", ""]),
        row(&["CS1001", "Intro", "\n2\n", "選", "Lee", "note", "extra"]),
    ];
    let courses = courses_from_rows(Some(rows)).ok().unwrap();
    assert_eq!(courses.len(), 2);
    assert_eq!(courses[0].course_no, "AT2003301");
    assert_eq!(courses[0].name, "計算機概論");
    assert_eq!(courses[0].credits, "3.0");
    assert_eq!(courses[0].required, "必");
    assert_eq!(courses[0].teacher, "王老師");
    assert_eq!(courses[0].notes, "");
    assert_eq!(courses[1].credits, "2");
    assert_eq!(courses[1].notes, "note");
    assert_eq!(courses_from_rows(Some(vec![])).ok().unwrap().len(), 0);
}

#[test]
fn courses_from_rows_errors() {
    let short = vec![row(&["a", "b", "3", "c", "d"])];
    let err = courses_from_rows(Some(short)).err().unwrap();
    assert_eq!(parse_error_message(err), "Parse courses info failed");

    let bad_credits = vec![row(&["a", "b", "three", "c", "d", "e"])];
    let err = courses_from_rows(Some(bad_credits)).err().unwrap();
    assert_eq!(parse_error_message(err), "Parse credits failed: invalid float literal");

    let empty_credits = vec![row(&["a", "b", " \n ", "c", "d", "e"])];
    let err = courses_from_rows(Some(empty_credits)).err().unwrap();
    assert_eq!(
        parse_error_message(err),
        "Parse credits failed: cannot parse float from empty string"
    );

    // The first bad row decides the error.
    let both = vec![row(&["a", "b", "x", "c", "d", "e"]), row(&["a"])];
    let err = courses_from_rows(Some(both)).err().unwrap();
    assert_eq!(parse_error_message(err), "Parse credits failed: invalid float literal");
    let both = vec![row(&["a"]), row(&["a", "b", "x", "c", "d", "e"])];
    let err = courses_from_rows(Some(both)).err().unwrap();
    assert_eq!(parse_error_message(err), "Parse courses info failed");

    let err = courses_from_rows(None).err().unwrap();
    assert_eq!(err.to_string(), "Other Error: Invalid selector");
}

#[test]
fn page_error_text() {
    assert_eq!(PageError::ParseError("x".to_string()).to_string(), "Parse Error: x");
    assert_eq!(PageError::NotFound("y".to_string()).to_string(), "Not Found: y");
    assert_eq!(PageError::Other("z".to_string()).to_string(), "Other Error: z");
}

const DETAILS: &str = r##"<html><body>
<form id="logoutForm"><ul>
  <li><a href="#"><span class="text-success">
                王小明
  </span></a>
    <ul><li>a</li><li>b</li><li><a href="#"><span>
      資訊工程系 三年級
    </span></a></li></ul>
  </li>
</ul></form>
<div id="PrintArea">
  <div>head</div>
  <div>
    <table><tbody><tr><td>x</td></tr></tbody></table>
    <table><tbody>
      <tr><th>課程代碼</th><th>名稱</th></tr>
      <tr><td>AT2003301</td><td> 計算機概論 </td><td>3.0</td><td>必</td><td>王老師</td><td></td></tr>
      <tr><td>CS1001</td><td>Intro</td><td>2</td><td>選</td><td>Lee</td><td>note</td></tr>
    </tbody></table>
  </div>
</div>
</body></html>"##;

#[test]
fn details_page_reads_name_class_and_courses() {
    let page = DetailsPage::new(DETAILS);
    assert_eq!(page.name().ok().unwrap(), "王小明");
    assert_eq!(page.class().ok().unwrap(), "資訊工程系 三年級");
    assert!(page.is_logined());
    let courses = page.courses().ok().unwrap();
    assert_eq!(courses.len(), 2);
    assert_eq!(courses[0].course_no, "AT2003301");
    assert_eq!(courses[0].name, "計算機概論");
    assert_eq!(courses[1].teacher, "Lee");
    assert_eq!(courses[1].notes, "note");
}

#[test]
fn details_page_without_login() {
    let page = DetailsPage::new("<html><body><p>Please log in</p></body></html>");
    assert!(!page.is_logined());
    assert_eq!(parse_error_message(page.name().err().unwrap()), "Cannot find name element");
    assert_eq!(parse_error_message(page.class().err().unwrap()), "Cannot find class element");
    assert_eq!(page.courses().ok().unwrap().len(), 0);
}

#[test]
fn details_page_with_empty_name_is_not_logged_in() {
    let page = DetailsPage::new(
        r#"<form id="logoutForm"><ul><li><a><span class="text-success">   </span></a></li></ul></form>"#,
    );
    assert_eq!(page.name().ok().unwrap(), "");
    assert!(!page.is_logined());
}

#[test]
fn details_page_to_string_is_the_parsed_document() {
    let page = DetailsPage::new("<p>x</p>");
    assert_eq!(page.to_string(), "<html><head></head><body><p>x</p></body></html>");
}

#[test]
fn select_result_page_finds_the_alert_message() {
    let html = "<html><script type=\"text/javascript\">\n    alert('加選成功');\n</script></html>";
    assert_eq!(SelectResultPage::new(html).result_message(), Some("加選成功".to_string()));
    let html = "<script type=\"text/javascript\">alert(\"Course is full\");</script>";
    assert_eq!(SelectResultPage::new(html).result_message(), Some("Course is full".to_string()));
}

#[test]
fn select_result_page_without_alert() {
    assert_eq!(SelectResultPage::new("<html><body>ok</body></html>").result_message(), None);
    let html = "<script type=\"text/javascript\">alert('');</script>";
    assert_eq!(SelectResultPage::new(html).result_message(), None);
    let html = "<script>alert('x');</script>";
    assert_eq!(SelectResultPage::new(html).result_message(), None);
}

#[test]
fn message_from_capture_flattens() {
    assert_eq!(SelectResultPage::message_from_capture(Some(Some("m".to_string()))), Some("m".to_string()));
    assert_eq!(SelectResultPage::message_from_capture(Some(None)), None);
    assert_eq!(SelectResultPage::message_from_capture(None), None);
}
