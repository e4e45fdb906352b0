//! The pages that the course-selection site serves: the details page of the
//! student who is logged in, and the page that answers a course selection.

use vstd::prelude::*;

use crate::html::{
    document_html, regex_capture, select_cell_texts, select_texts, spec_document_html,
    spec_regex_capture, spec_select_cell_texts, spec_select_texts,
};
use crate::number::{is_float_literal, is_float_literal_exec};
use crate::text::{
    chars_of, contains_pattern, is_white_space, lemma_remove_all_absent, lemma_remove_all_char,
    lemma_remove_all_keeps_absent, lemma_remove_all_run, lemma_subrange_keeps_absent,
    lemma_subrange_keeps_pattern_absent, lemma_trim_shape, lemma_trim_trimmed, occurs_at,
    remove_all, remove_all_exec, run_of, string_of, trim, trim_exec,
};

verus! {

broadcast use vstd::string::group_string_axioms;

/// Errors in reading a page.
pub enum PageError {
    ParseError(String),
    NotFound(String),
    Other(String),
}

/// A `PageError` with its message as a sequence of characters.
pub enum SpecPageError {
    ParseError(Seq<char>),
    NotFound(Seq<char>),
    Other(Seq<char>),
}

impl View for PageError {
    type V = SpecPageError;

    open spec fn view(&self) -> SpecPageError {
        match self {
            PageError::ParseError(m) => SpecPageError::ParseError(m@),
            PageError::NotFound(m) => SpecPageError::NotFound(m@),
            PageError::Other(m) => SpecPageError::Other(m@),
        }
    }
}

pub type Result<T> = core::result::Result<T, PageError>;

impl SpecPageError {
    /// The text of the error: its kind, a colon and its message.
    pub open spec fn text(self) -> Seq<char> {
        match self {
            SpecPageError::ParseError(m) => "Parse Error: "@ + m,
            SpecPageError::NotFound(m) => "Not Found: "@ + m,
            SpecPageError::Other(m) => "Other Error: "@ + m,
        }
    }
}

/// The text of an error is its kind's label, then its message unchanged.
pub proof fn page_error_text_ends_with_message(m: Seq<char>)
    ensures
        SpecPageError::ParseError(m).text() == "Parse Error: "@ + m,
        SpecPageError::NotFound(m).text() == "Not Found: "@ + m,
        SpecPageError::Other(m).text() == "Other Error: "@ + m,
{
}

impl PageError {
    /// The text of the error: its kind, a colon and its message.
    pub fn to_string(&self) -> (s: String)
        ensures
            s@ == self@.text(),
    {
        match self {
            PageError::ParseError(m) => "Parse Error: ".to_string().concat(m.as_str()),
            PageError::NotFound(m) => "Not Found: ".to_string().concat(m.as_str()),
            PageError::Other(m) => "Other Error: ".to_string().concat(m.as_str()),
        }
    }
}

/// What `serialize_string` makes of a text cut out of a page: carriage
/// returns, line feeds and tabs deleted, then every run of sixteen spaces
/// (the page's indentation) deleted, then the white space at both ends cut.
pub open spec fn spec_serialize_string(v: Seq<char>) -> Seq<char> {
    trim(remove_all(without_breaks(v), run_of(' ', 16)))
}

/// `v` with its carriage returns, line feeds and tabs deleted, in that order.
pub open spec fn without_breaks(v: Seq<char>) -> Seq<char> {
    remove_all(remove_all(remove_all(v, seq!['\r']), seq!['\n']), seq!['\t'])
}

/// Cleans a text cut out of a page: deletes carriage returns, line feeds and
/// tabs, then runs of sixteen spaces, then trims white space at both ends.
pub fn serialize_string(v: &str) -> (r: String)
    ensures
        r@ == spec_serialize_string(v@),
{
    let chars = chars_of(v);
    let cr: [char; 1] = ['\r'];
    let lf: [char; 1] = ['\n'];
    let tab: [char; 1] = ['\t'];
    let spaces: [char; 16] = [' '; 16];
    assert(cr@ =~= seq!['\r']);
    assert(lf@ =~= seq!['\n']);
    assert(tab@ =~= seq!['\t']);
    assert(spaces@ =~= run_of(' ', 16));
    let a = remove_all_exec(&chars, &cr);
    let b = remove_all_exec(&a, &lf);
    let c = remove_all_exec(&b, &tab);
    let d = remove_all_exec(&c, &spaces);
    let e = trim_exec(&d);
    string_of(&e)
}

/// A cleaned text holds no carriage return, line feed or tab, no run of
/// sixteen spaces, and neither starts nor ends with white space.
pub proof fn serialize_string_is_clean(v: Seq<char>)
    ensures
        forall|i: int|
            0 <= i < spec_serialize_string(v).len() ==> {
                let c = #[trigger] spec_serialize_string(v)[i];
                c != '\r' && c != '\n' && c != '\t'
            },
        !contains_pattern(spec_serialize_string(v), run_of(' ', 16)),
        spec_serialize_string(v).len() > 0 ==> !is_white_space(spec_serialize_string(v)[0])
            && !is_white_space(spec_serialize_string(v).last()),
{
    let s1 = remove_all(v, seq!['\r']);
    let s2 = remove_all(s1, seq!['\n']);
    let s3 = remove_all(s2, seq!['\t']);
    let s4 = remove_all(s3, run_of(' ', 16));
    lemma_remove_all_char(v, '\r');
    lemma_remove_all_keeps_absent(s1, seq!['\n'], '\r');
    lemma_remove_all_keeps_absent(s2, seq!['\t'], '\r');
    lemma_remove_all_keeps_absent(s3, run_of(' ', 16), '\r');
    lemma_remove_all_char(s1, '\n');
    lemma_remove_all_keeps_absent(s2, seq!['\t'], '\n');
    lemma_remove_all_keeps_absent(s3, run_of(' ', 16), '\n');
    lemma_remove_all_char(s2, '\t');
    lemma_remove_all_keeps_absent(s3, run_of(' ', 16), '\t');
    lemma_remove_all_run(s3, ' ', 16);
    let (a, b) = lemma_trim_shape(s4);
    lemma_subrange_keeps_absent(s4, a, b, '\r');
    lemma_subrange_keeps_absent(s4, a, b, '\n');
    lemma_subrange_keeps_absent(s4, a, b, '\t');
    lemma_subrange_keeps_pattern_absent(s4, a, b, run_of(' ', 16));
}

/// A text without carriage returns, line feeds, tabs or runs of sixteen
/// spaces, that neither starts nor ends with white space, comes out of
/// cleaning unchanged: single spaces inside it, as between a given name and
/// a family name, stay.
pub proof fn serialize_string_keeps_clean_text(r: Seq<char>)
    requires
        forall|i: int| 0 <= i < r.len() ==> #[trigger] r[i] != '\r' && r[i] != '\n' && r[i] != '\t',
        !contains_pattern(r, run_of(' ', 16)),
        r.len() > 0 ==> !is_white_space(r[0]) && !is_white_space(r.last()),
    ensures
        spec_serialize_string(r) == r,
{
    assert(!contains_pattern(r, seq!['\r'])) by {
        if contains_pattern(r, seq!['\r']) {
            let i = choose|i: int| occurs_at(r, seq!['\r'], i);
            assert(r.subrange(i, i + 1)[0] == r[i]);
        }
    }
    lemma_remove_all_absent(r, seq!['\r']);
    assert(!contains_pattern(r, seq!['\n'])) by {
        if contains_pattern(r, seq!['\n']) {
            let i = choose|i: int| occurs_at(r, seq!['\n'], i);
            assert(r.subrange(i, i + 1)[0] == r[i]);
        }
    }
    lemma_remove_all_absent(r, seq!['\n']);
    assert(!contains_pattern(r, seq!['\t'])) by {
        if contains_pattern(r, seq!['\t']) {
            let i = choose|i: int| occurs_at(r, seq!['\t'], i);
            assert(r.subrange(i, i + 1)[0] == r[i]);
        }
    }
    lemma_remove_all_absent(r, seq!['\t']);
    lemma_remove_all_absent(r, run_of(' ', 16));
    lemma_trim_trimmed(r);
}

/// Cleaning a text that is already clean changes nothing.
pub proof fn serialize_string_idempotent(v: Seq<char>)
    ensures
        spec_serialize_string(spec_serialize_string(v)) == spec_serialize_string(v),
{
    serialize_string_is_clean(v);
    serialize_string_keeps_clean_text(spec_serialize_string(v));
}

/// Where the name of the student stands on the details page.
pub const NAME_SELECTOR: &'static str = "#logoutForm > ul > li:nth-child(1) > a > span.text-success";

/// Where the class of the student stands on the details page.
pub const CLASS_SELECTOR: &'static str =
    "#logoutForm > ul > li:nth-child(1) > ul > li:nth-child(3) > a > span";

/// The rows of the table of chosen courses, its header row left out.
pub const COURSES_SELECTOR: &'static str =
    "#PrintArea > div:nth-child(2) > table:nth-child(2) > tbody:nth-child(1) > tr:not(:first-child)";

/// The cells of a row of that table.
pub const CELL_SELECTOR: &'static str = "td";

/// The script by which the selection page shows its answer in an alert box;
/// group 1 is the message.
pub const RESULT_MESSAGE_PATTERN: &'static str =
    "<script type=\"text\\/javascript\">[^<]*alert\\(['\"]([^'\"]+)['\"]\\);[^<]*<\\/script>";

/// The message of the error that a selector that does not parse would give.
pub const INVALID_SELECTOR_MESSAGE: &'static str = "Invalid selector";

pub const NAME_MISSING_MESSAGE: &'static str = "Cannot find name element";

pub const CLASS_MISSING_MESSAGE: &'static str = "Cannot find class element";

pub const COURSE_ROW_MESSAGE: &'static str = "Parse courses info failed";

pub const CREDITS_MESSAGE: &'static str = "Parse credits failed: ";

/// What `str::parse::<f32>`'s error says of an empty text.
pub const FLOAT_EMPTY_MESSAGE: &'static str = "cannot parse float from empty string";

/// What `str::parse::<f32>`'s error says of any other text it refuses.
pub const FLOAT_INVALID_MESSAGE: &'static str = "invalid float literal";

/// A result with a text, viewed as characters.
pub open spec fn text_result_view(r: &Result<String>) -> core::result::Result<
    Seq<char>,
    SpecPageError,
> {
    match r {
        Ok(s) => Ok(s@),
        Err(e) => Err(e@),
    }
}

/// The cleaned text of the first element found, if a selector's `texts`
/// found one; the parse error `missing` if it found none.
pub open spec fn spec_first_cleaned(texts: Option<Seq<Seq<char>>>, missing: Seq<char>) -> core::result::Result<
    Seq<char>,
    SpecPageError,
> {
    match texts {
        None => Err(SpecPageError::Other(INVALID_SELECTOR_MESSAGE@)),
        Some(t) => if t.len() > 0 {
            Ok(spec_serialize_string(t[0]))
        } else {
            Err(SpecPageError::ParseError(missing))
        },
    }
}

/// Given the texts that a selector found (`None` where the selector did not
/// parse), the cleaned text of the first, or the parse error `missing`.
pub fn first_cleaned_text(texts: Option<Vec<String>>, missing: &str) -> (res: Result<String>)
    ensures
        text_result_view(&res) == spec_first_cleaned(texts.deep_view(), missing@),
{
    match texts {
        None => Err(PageError::Other(INVALID_SELECTOR_MESSAGE.to_string())),
        Some(t) => {
            if t.len() > 0 {
                Ok(serialize_string(t[0].as_str()))
            } else {
                Err(PageError::ParseError(missing.to_string()))
            }
        },
    }
}

/// One course in the table of chosen courses. The credits stay the cleaned
/// text of their cell, which is known to be in the syntax of an `f32`.
pub struct Course {
    pub course_no: String,
    pub name: String,
    pub credits: String,
    pub required: String,
    pub teacher: String,
    pub notes: String,
}

/// A `Course` with its texts as sequences of characters.
pub struct SpecCourse {
    pub course_no: Seq<char>,
    pub name: Seq<char>,
    pub credits: Seq<char>,
    pub required: Seq<char>,
    pub teacher: Seq<char>,
    pub notes: Seq<char>,
}

impl View for Course {
    type V = SpecCourse;

    open spec fn view(&self) -> SpecCourse {
        SpecCourse {
            course_no: self.course_no@,
            name: self.name@,
            credits: self.credits@,
            required: self.required@,
            teacher: self.teacher@,
            notes: self.notes@,
        }
    }
}

/// What `str::parse::<f32>`'s error says of the text `s`.
pub open spec fn float_error_text(s: Seq<char>) -> Seq<char> {
    if s.len() == 0 {
        FLOAT_EMPTY_MESSAGE@
    } else {
        FLOAT_INVALID_MESSAGE@
    }
}

/// The course that a row with the texts `cells` describes: at least six
/// cells (course number, name, credits, required or elective, teacher,
/// notes), each cleaned, the credits in the syntax of an `f32`.
pub open spec fn spec_course(cells: Seq<Seq<char>>) -> core::result::Result<
    SpecCourse,
    SpecPageError,
> {
    if cells.len() < 6 {
        Err(SpecPageError::ParseError(COURSE_ROW_MESSAGE@))
    } else {
        let credits = spec_serialize_string(cells[2]);
        if !is_float_literal(credits) {
            Err(SpecPageError::ParseError(CREDITS_MESSAGE@ + float_error_text(credits)))
        } else {
            Ok(
                SpecCourse {
                    course_no: spec_serialize_string(cells[0]),
                    name: spec_serialize_string(cells[1]),
                    credits: credits,
                    required: spec_serialize_string(cells[3]),
                    teacher: spec_serialize_string(cells[4]),
                    notes: spec_serialize_string(cells[5]),
                },
            )
        }
    }
}

/// The courses of the rows, first to last; the error of the first row
/// that does not describe a course.
pub open spec fn spec_courses(rows: Seq<Seq<Seq<char>>>) -> core::result::Result<
    Seq<SpecCourse>,
    SpecPageError,
>
    decreases rows.len(),
{
    if rows.len() == 0 {
        Ok(seq![])
    } else {
        match spec_course(rows[0]) {
            Err(e) => Err(e),
            Ok(c) => match spec_courses(rows.drop_first()) {
                Ok(cs) => Ok(seq![c] + cs),
                Err(e) => Err(e),
            },
        }
    }
}

/// The courses of the table, given what its selectors found (`None` where
/// a selector did not parse).
pub open spec fn spec_courses_of(rows: Option<Seq<Seq<Seq<char>>>>) -> core::result::Result<
    Seq<SpecCourse>,
    SpecPageError,
> {
    match rows {
        None => Err(SpecPageError::Other(INVALID_SELECTOR_MESSAGE@)),
        Some(r) => spec_courses(r),
    }
}

pub open spec fn courses_result_view(r: &Result<Vec<Course>>) -> core::result::Result<
    Seq<SpecCourse>,
    SpecPageError,
> {
    match r {
        Ok(v) => Ok(v@.map_values(|c: Course| c@)),
        Err(e) => Err(e@),
    }
}

/// `r` with the courses `done` put in front, where it holds courses.
pub open spec fn prepend_courses(
    done: Seq<SpecCourse>,
    r: core::result::Result<Seq<SpecCourse>, SpecPageError>,
) -> core::result::Result<Seq<SpecCourse>, SpecPageError> {
    match r {
        Ok(cs) => Ok(done + cs),
        Err(e) => Err(e),
    }
}

/// The table reads as courses exactly when every row describes a course,
/// and then it gives one course per row, in order, each the course of its row.
pub proof fn courses_follow_rows(rows: Seq<Seq<Seq<char>>>)
    ensures
        spec_courses(rows) is Ok <==> forall|i: int| 0 <= i < rows.len() ==> (#[trigger] spec_course(rows[i])) is Ok,
        spec_courses(rows) matches Ok(cs) ==> cs.len() == rows.len() && forall|i: int|
            0 <= i < rows.len() ==> spec_course(#[trigger] rows[i]) == Ok::<SpecCourse, SpecPageError>(cs[i]),
    decreases rows.len(),
{
    if rows.len() > 0 {
        let t = rows.drop_first();
        courses_follow_rows(t);
        assert forall|i: int| 0 < i < rows.len() implies rows[i] == #[trigger] t[i - 1] by {}
        if spec_courses(rows) is Ok {
            let cs = spec_courses(rows)->Ok_0;
            let rest = spec_courses(t)->Ok_0;
            assert forall|i: int| 0 <= i < rows.len() implies spec_course(#[trigger] rows[i]) == Ok::<SpecCourse, SpecPageError>(cs[i]) by {
                if i > 0 {
                    assert(cs[i] == rest[i - 1]);
                    assert(spec_course(t[i - 1]) == Ok::<SpecCourse, SpecPageError>(rest[i - 1]));
                }
            }
        } else {
            if forall|i: int| 0 <= i < rows.len() ==> (#[trigger] spec_course(rows[i])) is Ok {
                assert(spec_course(rows[0]) is Ok);
                assert forall|i: int| 0 <= i < t.len() implies (#[trigger] spec_course(t[i])) is Ok by {
                    assert(spec_course(rows[i + 1]) is Ok);
                }
            }
        }
    }
}

/// A course read from a row holds the cleaned text of each of the row's
/// first six cells, in order (course number, name, credits, required or
/// elective, teacher, notes): no carriage return, line feed or tab, and no
/// white space at either end; and its credits parse as an `f32`.
pub proof fn course_fields_are_cleaned_cells(cells: Seq<Seq<char>>)
    ensures
        spec_course(cells) is Ok ==> cells.len() >= 6,
        spec_course(cells) matches Ok(c) ==> {
            &&& c.course_no == spec_serialize_string(cells[0])
            &&& c.name == spec_serialize_string(cells[1])
            &&& c.credits == spec_serialize_string(cells[2])
            &&& c.required == spec_serialize_string(cells[3])
            &&& c.teacher == spec_serialize_string(cells[4])
            &&& c.notes == spec_serialize_string(cells[5])
            &&& is_float_literal(c.credits)
            &&& forall|i: int|
                0 <= i < c.course_no.len() ==> #[trigger] c.course_no[i] != '\r' && c.course_no[i]
                    != '\n' && c.course_no[i] != '\t'
            &&& c.course_no.len() > 0 ==> !is_white_space(c.course_no[0]) && !is_white_space(
                c.course_no.last(),
            )
        },
        cells.len() >= 6 && is_float_literal(spec_serialize_string(cells[2])) ==> spec_course(
            cells,
        ) is Ok,
{
    if cells.len() >= 6 {
        serialize_string_is_clean(cells[0]);
    }
}

/// The courses of a table are, row by row, the cleaned cells of its rows.
pub proof fn courses_are_cleaned_cells(rows: Seq<Seq<Seq<char>>>)
    ensures
        spec_courses(rows) matches Ok(cs) ==> cs.len() == rows.len() && forall|i: int|
            0 <= i < rows.len() ==> {
                &&& rows[i].len() >= 6
                &&& (#[trigger] cs[i]).course_no == spec_serialize_string(rows[i][0])
                &&& cs[i].name == spec_serialize_string(rows[i][1])
                &&& cs[i].credits == spec_serialize_string(rows[i][2])
                &&& cs[i].required == spec_serialize_string(rows[i][3])
                &&& cs[i].teacher == spec_serialize_string(rows[i][4])
                &&& cs[i].notes == spec_serialize_string(rows[i][5])
            },
{
    courses_follow_rows(rows);
    if spec_courses(rows) is Ok {
        let cs = spec_courses(rows)->Ok_0;
        assert forall|i: int| 0 <= i < rows.len() implies {
            &&& rows[i].len() >= 6
            &&& (#[trigger] cs[i]).course_no == spec_serialize_string(rows[i][0])
            &&& cs[i].name == spec_serialize_string(rows[i][1])
            &&& cs[i].credits == spec_serialize_string(rows[i][2])
            &&& cs[i].required == spec_serialize_string(rows[i][3])
            &&& cs[i].teacher == spec_serialize_string(rows[i][4])
            &&& cs[i].notes == spec_serialize_string(rows[i][5])
        } by {
            assert(spec_course(rows[i]) == Ok::<SpecCourse, SpecPageError>(cs[i]));
            course_fields_are_cleaned_cells(rows[i]);
        }
    }
}

/// The course that one row describes.
pub fn course_from_cells(cells: &Vec<String>) -> (res: Result<Course>)
    ensures
        res is Ok ==> cells@.len() >= 6,
        cells@.len() < 6 ==> res is Err,
        res matches Ok(c) ==> {
            &&& c.course_no@ == spec_serialize_string(cells@[0]@)
            &&& c.name@ == spec_serialize_string(cells@[1]@)
            &&& c.credits@ == spec_serialize_string(cells@[2]@)
            &&& c.required@ == spec_serialize_string(cells@[3]@)
            &&& c.teacher@ == spec_serialize_string(cells@[4]@)
            &&& c.notes@ == spec_serialize_string(cells@[5]@)
            &&& is_float_literal(c.credits@)
        },
        match res {
            Ok(c) => spec_course(cells.deep_view()) == Ok::<SpecCourse, SpecPageError>(c@),
            Err(e) => spec_course(cells.deep_view()) == Err::<SpecCourse, SpecPageError>(e@),
        },
{
    let ghost cv = cells.deep_view();
    if cells.len() < 6 {
        return Err(PageError::ParseError(COURSE_ROW_MESSAGE.to_string()));
    }
    assert(cv[2] == cells@[2]@);
    let credits = serialize_string(cells[2].as_str());
    let credit_chars = chars_of(credits.as_str());
    if !is_float_literal_exec(&credit_chars) {
        let reason = if credit_chars.len() == 0 {
            FLOAT_EMPTY_MESSAGE
        } else {
            FLOAT_INVALID_MESSAGE
        };
        return Err(PageError::ParseError(CREDITS_MESSAGE.to_string().concat(reason)));
    }
    assert(cv[0] == cells@[0]@);
    assert(cv[1] == cells@[1]@);
    assert(cv[3] == cells@[3]@);
    assert(cv[4] == cells@[4]@);
    assert(cv[5] == cells@[5]@);
    Ok(
        Course {
            course_no: serialize_string(cells[0].as_str()),
            name: serialize_string(cells[1].as_str()),
            credits,
            required: serialize_string(cells[3].as_str()),
            teacher: serialize_string(cells[4].as_str()),
            notes: serialize_string(cells[5].as_str()),
        },
    )
}

/// The courses of the table, given the cell texts of its rows that the
/// selectors found (`None` where a selector did not parse): the first row
/// that does not describe a course gives the error.
pub fn courses_from_rows(rows: Option<Vec<Vec<String>>>) -> (res: Result<Vec<Course>>)
    ensures
        courses_result_view(&res) == spec_courses_of(rows.deep_view()),
{
    let table = match &rows {
        None => {
            return Err(PageError::Other(INVALID_SELECTOR_MESSAGE.to_string()));
        },
        Some(r) => r,
    };
    let ghost rv = table.deep_view();
    let mut courses: Vec<Course> = Vec::new();
    let n = table.len();
    let mut i: usize = 0;
    assert(rv.skip(0) =~= rv);
    while i < n
        invariant
            n == table@.len(),
            rv == table.deep_view(),
            rows.deep_view() == Some(rv),
            i <= n,
            spec_courses(rv) == prepend_courses(
                courses@.map_values(|c: Course| c@),
                spec_courses(rv.skip(i as int)),
            ),
        decreases n - i,
    {
        let ghost rest = rv.skip(i as int);
        assert(rest[0] == table@[i as int].deep_view());
        assert(rest.drop_first() =~= rv.skip(i + 1));
        match course_from_cells(&table[i]) {
            Err(e) => {
                assert(rest.len() > 0);
                assert(spec_courses(rest) == Err::<Seq<SpecCourse>, SpecPageError>(e@));
                return Err(e);
            },
            Ok(c) => {
                let ghost before = courses@.map_values(|c: Course| c@);
                courses.push(c);
                assert(courses@.map_values(|c: Course| c@) =~= before + seq![c@]);
                proof {
                    match spec_courses(rv.skip(i + 1)) {
                        Ok(cs) => {
                            assert(before + (seq![c@] + cs) =~= (before + seq![c@]) + cs);
                        },
                        Err(_) => {},
                    }
                }
            },
        }
        i = i + 1;
    }
    assert(rv.skip(n as int) =~= Seq::<Seq<Seq<char>>>::empty());
    assert(courses@.map_values(|c: Course| c@) + Seq::<SpecCourse>::empty() =~= courses@.map_values(
        |c: Course| c@,
    ));
    Ok(courses)
}

/// The details page of the student who is logged in.
pub struct DetailsPage {
    html: String,
}

impl View for DetailsPage {
    type V = Seq<char>;

    /// The HTML of the page.
    closed spec fn view(&self) -> Seq<char> {
        self.html@
    }
}

/// The name that the details page `html` shows.
pub open spec fn spec_name(html: Seq<char>) -> core::result::Result<Seq<char>, SpecPageError> {
    spec_first_cleaned(spec_select_texts(html, NAME_SELECTOR@), NAME_MISSING_MESSAGE@)
}

/// The class that the details page `html` shows.
pub open spec fn spec_class(html: Seq<char>) -> core::result::Result<Seq<char>, SpecPageError> {
    spec_first_cleaned(spec_select_texts(html, CLASS_SELECTOR@), CLASS_MISSING_MESSAGE@)
}

/// The courses that the details page `html` lists.
pub open spec fn spec_page_courses(html: Seq<char>) -> core::result::Result<
    Seq<SpecCourse>,
    SpecPageError,
> {
    spec_courses_of(spec_select_cell_texts(html, COURSES_SELECTOR@, CELL_SELECTOR@))
}

/// The name on a details page is the cleaned text of the first element that
/// the name selector finds; with no such element, the parse error that says
/// so.
pub proof fn name_is_cleaned_first_match(html: Seq<char>)
    ensures
        spec_select_texts(html, NAME_SELECTOR@) matches Some(t) ==> (t.len() > 0 ==> spec_name(html)
            == Ok::<Seq<char>, SpecPageError>(spec_serialize_string(t[0]))) && (t.len() == 0
            ==> spec_name(html) == Err::<Seq<char>, SpecPageError>(
            SpecPageError::ParseError(NAME_MISSING_MESSAGE@),
        )),
        spec_select_texts(html, NAME_SELECTOR@) is None ==> spec_name(html) is Err,
{
}

/// The class on a details page is the cleaned text of the first element
/// that the class selector finds; with no such element, the parse error that
/// says so.
pub proof fn class_is_cleaned_first_match(html: Seq<char>)
    ensures
        spec_select_texts(html, CLASS_SELECTOR@) matches Some(t) ==> (t.len() > 0 ==> spec_class(
            html,
        ) == Ok::<Seq<char>, SpecPageError>(spec_serialize_string(t[0]))) && (t.len() == 0
            ==> spec_class(html) == Err::<Seq<char>, SpecPageError>(
            SpecPageError::ParseError(CLASS_MISSING_MESSAGE@),
        )),
        spec_select_texts(html, CLASS_SELECTOR@) is None ==> spec_class(html) is Err,
{
}

impl DetailsPage {
    pub fn new(html: &str) -> (page: Self)
        ensures
            page@ == html@,
    {
        DetailsPage { html: html.to_string() }
    }

    /// Whether the page shows a student's name, that is whether the login
    /// took.
    pub fn is_logined(&self) -> (b: bool)
        ensures
            b == (spec_name(self@) matches Ok(name) && name.len() > 0),
    {
        match self.name() {
            Ok(name) => !name.as_str().is_empty(),
            _ => false,
        }
    }

    /// The student's name, cleaned.
    pub fn name(&self) -> (res: Result<String>)
        ensures
            text_result_view(&res) == spec_name(self@),
            res matches Ok(n) ==> spec_select_texts(self@, NAME_SELECTOR@) matches Some(t) && t.len()
                > 0 && n@ == spec_serialize_string(t[0]),
    {
        proof {
            name_is_cleaned_first_match(self@);
        }
        first_cleaned_text(select_texts(self.html.as_str(), NAME_SELECTOR), NAME_MISSING_MESSAGE)
    }

    /// The student's class, cleaned.
    pub fn class(&self) -> (res: Result<String>)
        ensures
            text_result_view(&res) == spec_class(self@),
            res matches Ok(n) ==> spec_select_texts(self@, CLASS_SELECTOR@) matches Some(t) && t.len()
                > 0 && n@ == spec_serialize_string(t[0]),
    {
        proof {
            class_is_cleaned_first_match(self@);
        }
        first_cleaned_text(select_texts(self.html.as_str(), CLASS_SELECTOR), CLASS_MISSING_MESSAGE)
    }

    /// The chosen courses, in the order of the table.
    pub fn courses(&self) -> (res: Result<Vec<Course>>)
        ensures
            courses_result_view(&res) == spec_page_courses(self@),
    {
        courses_from_rows(select_cell_texts(self.html.as_str(), COURSES_SELECTOR, CELL_SELECTOR))
    }

    /// The page's document as the HTML parser reads it, serialized back.
    pub fn to_string(&self) -> (s: String)
        ensures
            s@ == spec_document_html(self@),
    {
        document_html(self.html.as_str())
    }
}

/// The page that answers a course selection.
pub struct SelectResultPage {
    html: String,
}

impl View for SelectResultPage {
    type V = Seq<char>;

    /// The HTML of the page.
    closed spec fn view(&self) -> Seq<char> {
        self.html@
    }
}

/// The message of the alert box, given what the pattern captured.
pub open spec fn spec_message(capture: Option<Option<Seq<char>>>) -> Option<Seq<char>> {
    match capture {
        Some(Some(m)) => Some(m),
        _ => None,
    }
}

/// The message is the whole text that capture group 1 took, unchanged; with
/// no match, or a pattern that does not compile, there is no message.
pub proof fn message_is_whole_capture(capture: Option<Option<Seq<char>>>)
    ensures
        capture matches Some(Some(m)) ==> spec_message(capture) == Some(m),
        !(capture matches Some(Some(_))) ==> spec_message(capture) is None,
{
}

impl SelectResultPage {
    pub fn new(html: &str) -> (page: Self)
        ensures
            page@ == html@,
    {
        SelectResultPage { html: html.to_string() }
    }

    /// The message that the page shows in its alert box, if it has one.
    pub fn result_message(&self) -> (m: Option<String>)
        ensures
            m.deep_view() == spec_message(
                spec_regex_capture(RESULT_MESSAGE_PATTERN@, self@, 1),
            ),
            spec_regex_capture(RESULT_MESSAGE_PATTERN@, self@, 1) matches Some(Some(c)) ==> m matches Some(x)
                && x@ == c,
            !(spec_regex_capture(RESULT_MESSAGE_PATTERN@, self@, 1) matches Some(Some(_)))
                ==> m is None,
    {
        Self::message_from_capture(regex_capture(RESULT_MESSAGE_PATTERN, self.html.as_str(), 1))
    }

    /// The message, given what the pattern captured (`None` where the
    /// pattern did not compile).
    pub fn message_from_capture(capture: Option<Option<String>>) -> (m: Option<String>)
        ensures
            m.deep_view() == spec_message(capture.deep_view()),
            capture matches Some(Some(c)) ==> m matches Some(x) && x@ == c@,
            !(capture matches Some(Some(_))) ==> m is None,
    {
        proof {
            message_is_whole_capture(capture.deep_view());
        }
        match capture {
            Some(Some(m)) => Some(m),
            _ => None,
        }
    }
}

} // verus!
