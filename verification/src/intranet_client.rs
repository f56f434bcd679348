//! The session protocol: a type-state client whose data operations are only
//! reachable after a successful login, the token-extraction steps that make
//! those calls possible, and the construction of every request the protocol
//! sends. The surrounding application performs the HTTP exchanges; each
//! request is computed here as a plain value.

use vstd::prelude::*;
use vstd::string::StringExecFns;

use crate::name::Name;
use crate::strutil::is_alnum_char;
use crate::strutil::is_ws_char;
use crate::strutil::spec_dec;
use crate::strutil::spec_dec_signed;
use crate::timetable::spec_window;
use crate::timetable::timetable_window;
use crate::timetable::TimeTableLayout;
use crate::Error;

verus! {

/// The marker of a session that has completed a successful login. The
/// session's fields are private, so the only way any code outside this
/// module obtains an `IntranetClient<Authenticated>` is a successful
/// `authenticate` call: that a data request is issued before login is a
/// compile-time impossibility, with no runtime check.
pub struct Authenticated;

/// The marker of a session that has not logged in yet.
pub struct Unauthenticated;

/// The supported institutions, each with its fixed short code.
#[derive(Clone, Copy, Debug, PartialEq, Eq, Structural)]
pub enum School {
    Mng,
}

/// The short code of a school, used in URL paths and login forms.
pub open spec fn spec_school_code(s: School) -> Seq<char> {
    match s {
        School::Mng => "krm"@,
    }
}

impl School {
    /// The short code of this school.
    pub fn code(&self) -> (r: &'static str)
        ensures
            r@ == spec_school_code(*self),
    {
        match self {
            School::Mng => "krm",
        }
    }
}

/// An HTTP method of the protocol.
#[derive(Clone, Copy, Debug, PartialEq, Eq, Structural)]
pub enum HttpMethod {
    Get,
    Post,
}

/// One request of the protocol, as a plain value: the application sends it
/// and hands the response body or status back. `ajax` marks the requests
/// that carry the `X-Requested-With: XMLHttpRequest` header.
pub struct HttpRequest {
    pub method: HttpMethod,
    pub url: String,
    pub form: Vec<(String, String)>,
    pub ajax: bool,
}

/// The fixed base address of the portal.
pub open spec fn spec_base_url() -> Seq<char> {
    "https://intranet.tam.ch"@
}

/// The school-specific base path.
pub open spec fn spec_school_url(s: School) -> Seq<char> {
    spec_base_url() + "/"@ + spec_school_code(s)
}

/// The session: the school, the student's canonical identity, and the
/// authentication marker. A value of the `Authenticated` type can only
/// come out of a successful `authenticate` call, so no data operation is
/// reachable before login.
pub struct IntranetClient<State> {
    school: School,
    student: Name,
    state: State,
}

impl IntranetClient<Unauthenticated> {
    /// A fresh, unauthenticated session for one school and one student
    /// identity, given as a canonical `firstname.lastname` string.
    pub fn new(school: School, student: &str) -> (r: IntranetClient<Unauthenticated>)
        ensures
            r.school() == school,
            r.spec_student().string@ == student@,
    {
        IntranetClient { school, student: Name { string: student.to_owned() }, state: Unauthenticated }
    }

    /// The login form for one page-fresh hash token and the password: the
    /// POST to the school's base path that performs the login.
    pub fn login_request(&self, hash: &str, password: &str) -> (r: HttpRequest)
        ensures
            r.method == HttpMethod::Post,
            r.url@ == spec_school_url(self.school()),
            !r.ajax,
            r.form@.len() == 4,
            r.form@[0].0@ == "hash"@ && r.form@[0].1@ == hash@,
            r.form@[1].0@ == "loginschool"@ && r.form@[1].1@ == spec_school_code(self.school()),
            r.form@[2].0@ == "loginuser"@ && r.form@[2].1@ == self.spec_student().string@,
            r.form@[3].0@ == "loginpassword"@ && r.form@[3].1@ == password@,
    {
        let mut form: Vec<(String, String)> = Vec::new();
        form.push(("hash".to_owned(), hash.to_owned()));
        form.push(("loginschool".to_owned(), self.school.code().to_owned()));
        form.push(("loginuser".to_owned(), self.student.string.clone()));
        form.push(("loginpassword".to_owned(), password.to_owned()));
        HttpRequest { method: HttpMethod::Post, url: self.school_url(), form, ajax: false }
    }

    /// Completes the login exchange: a non-error HTTP status on the login
    /// POST transitions the session to the authenticated state, carrying
    /// the same identity; a client or server error status surfaces as the
    /// distinct status failure and the session stays unusable.
    pub fn authenticate(self, login_status: u16) -> (r: Result<
        IntranetClient<Authenticated>,
        Error,
    >)
        ensures
            r is Ok <==> !(400 <= login_status < 600),
            r matches Ok(c) ==> c.spec_school() == self.spec_school() && c.spec_student() == self.spec_student(),
            r matches Err(e) ==> e == Error::HttpStatusError(login_status),
    {
        if 400 <= login_status && login_status < 600 {
            Err(Error::HttpStatusError(login_status))
        } else {
            Ok(IntranetClient { school: self.school, student: self.student, state: Authenticated })
        }
    }
}

impl<State> IntranetClient<State> {
    /// The school of this session, for contracts.
    pub closed spec fn spec_school(&self) -> School {
        self.school
    }

    /// The student identity of this session, for contracts.
    pub closed spec fn spec_student(&self) -> Name {
        self.student
    }

    /// The fixed base address of the portal.
    pub fn url(&self) -> (r: &'static str)
        ensures
            r@ == spec_base_url(),
    {
        "https://intranet.tam.ch"
    }

    /// The school-specific base path.
    pub fn school_url(&self) -> (r: String)
        ensures
            r@ == spec_school_url(self.school()),
    {
        let mut s = self.url().to_owned();
        s.append("/");
        s.append(self.school.code());
        s
    }

    /// The school of this session.
    #[verifier::when_used_as_spec(spec_school)]
    pub fn school(&self) -> (r: School)
        ensures
            r == self.spec_school(),
    {
        self.school
    }

    /// The student identity of this session.
    pub fn student(&self) -> (r: &Name)
        ensures
            *r == self.spec_student(),
    {
        &self.student
    }

    /// The GET for the login page, whose body carries the hash token.
    pub fn login_page_request(&self) -> (r: HttpRequest)
        ensures
            r.method == HttpMethod::Get,
            r.url@ == spec_base_url(),
            r.form@.len() == 0,
            !r.ajax,
    {
        HttpRequest {
            method: HttpMethod::Get,
            url: self.url().to_owned(),
            form: Vec::new(),
            ajax: false,
        }
    }

    /// Extracts the fresh token embedded in a page body under the
    /// `csrfToken = '<token>'` script pattern; its absence is the distinct
    /// token failure, never a default.
    pub fn get_csrf_token(&self, body: &str) -> (r: Result<String, Error>)
        ensures
            match r {
                Ok(t) => spec_csrf_token(body@) == Some(t@),
                Err(e) => spec_csrf_token(body@) is None && e == Error::TokenNotFound,
            },
    {
        extract_csrf_token(body)
    }
}

/// The data operations stand only on the authenticated type, never on the
/// unauthenticated one, so the type checker rules out every pre-login call
/// path to them.
impl IntranetClient<Authenticated> {
    /// The GET for the classbook page, fetched anew before each data call
    /// to obtain a fresh token.
    pub fn classbook_request(&self) -> (r: HttpRequest)
        ensures
            r.method == HttpMethod::Get,
            r.url@ == spec_school_url(self.school()) + "/timetable/classbook"@,
            r.form@.len() == 0,
            !r.ajax,
    {
        let mut url = self.school_url();
        url.append("/timetable/classbook");
        HttpRequest { method: HttpMethod::Get, url, form: Vec::new(), ajax: false }
    }

    /// The POST for the resource directory, for one period and one fresh
    /// token.
    pub fn resources_request(&self, csrf_token: &str, period_id: u64) -> (r: HttpRequest)
        ensures
            r.method == HttpMethod::Post,
            r.url@ == spec_school_url(self.school()) + "/timetable/ajax-get-resources"@,
            r.ajax,
            r.form@.len() == 2,
            r.form@[0].0@ == "periodId"@ && r.form@[0].1@ == spec_dec(period_id as int),
            r.form@[1].0@ == "csrfToken"@ && r.form@[1].1@ == csrf_token@,
    {
        let mut url = self.school_url();
        url.append("/timetable/ajax-get-resources");
        let mut form: Vec<(String, String)> = Vec::new();
        form.push(("periodId".to_owned(), crate::strutil::u64_to_string(period_id)));
        form.push(("csrfToken".to_owned(), csrf_token.to_owned()));
        HttpRequest { method: HttpMethod::Post, url, form, ajax: true }
    }

    /// The POST for one student's timetable over an explicit window, with
    /// the bounds serialized as millisecond epoch strings.
    pub fn timetable_request_at(&self, student_id: u32, start_ms: i64, end_ms: i64) -> (r:
        HttpRequest)
        ensures
            r.method == HttpMethod::Post,
            r.url@ == spec_school_url(self.school()) + "/timetable/ajax-get-timetable"@,
            r.ajax,
            r.form@.len() == 4,
            r.form@[0].0@ == "startDate"@ && r.form@[0].1@ == spec_dec_signed(start_ms as int),
            r.form@[1].0@ == "endDate"@ && r.form@[1].1@ == spec_dec_signed(end_ms as int),
            r.form@[2].0@ == "studentId[]"@ && r.form@[2].1@ == spec_dec(student_id as int),
            r.form@[3].0@ == "holidaysOnly"@ && r.form@[3].1@ == "0"@,
    {
        let mut url = self.school_url();
        url.append("/timetable/ajax-get-timetable");
        let mut form: Vec<(String, String)> = Vec::new();
        form.push(("startDate".to_owned(), crate::strutil::i64_to_string(start_ms)));
        form.push(("endDate".to_owned(), crate::strutil::i64_to_string(end_ms)));
        form.push(("studentId[]".to_owned(), crate::strutil::u64_to_string(student_id as u64)));
        form.push(("holidaysOnly".to_owned(), "0".to_owned()));
        HttpRequest { method: HttpMethod::Post, url, form, ajax: true }
    }

    /// The POST for one student's timetable over the window given by the
    /// chosen layout and the current local time. Whatever instant the
    /// clock returns, the bounds are the chosen window around it.
    pub fn timetable_request(&self, student_id: u32, layout: TimeTableLayout) -> (r: HttpRequest)
        ensures
            r.method == HttpMethod::Post,
            r.url@ == spec_school_url(self.school()) + "/timetable/ajax-get-timetable"@,
            r.ajax,
            r.form@.len() == 4,
            r.form@[0].0@ == "startDate"@,
            r.form@[1].0@ == "endDate"@,
            r.form@[2].0@ == "studentId[]"@ && r.form@[2].1@ == spec_dec(student_id as int),
            r.form@[3].0@ == "holidaysOnly"@ && r.form@[3].1@ == "0"@,
            exists|now: i64, wd: u8|
                wd < 7 && r.form@[0].1@ == spec_dec_signed(
                    (#[trigger] spec_window(now as int, wd as int, layout)).0,
                ) && r.form@[1].1@ == spec_dec_signed(spec_window(now as int, wd as int, layout).1),
    {
        let (now_ms, weekday) = now_local();
        let (start_ms, end_ms) = timetable_window(now_ms, weekday, layout);
        let r = self.timetable_request_at(student_id, start_ms, end_ms);
        proof {
            let w = spec_window(now_ms as int, weekday as int, layout);
            assert(r.form@[0].1@ == spec_dec_signed(w.0));
            assert(r.form@[1].1@ == spec_dec_signed(w.1));
        }
        r
    }
}

/// Relies on `chrono::Local::now`: the current local instant as epoch
/// milliseconds, and its weekday as the documented day-of-week number
/// starting from Monday = 0, which is always below seven.
#[verifier::external_body]
fn now_local() -> (r: (i64, u8))
    ensures
        r.1 < 7,
{
    let now = chrono::Local::now();
    let weekday = chrono::Datelike::weekday(&now).num_days_from_monday() % 7;
    (now.timestamp_millis(), weekday as u8)
}

/// The value attribute of the first `<input>` element named `hash` of the
/// parsed document, if the document parses and such an element with such
/// an attribute exists. The parse is a pure function of the document text.
pub uninterp spec fn login_hash_of(html: Seq<char>) -> Option<Seq<char>>;

/// Relies on `tl::parse` and its query selectors: locating the first
/// `input[name='hash']` element and reading its `value` attribute.
#[verifier::external_body]
fn hash_field_of(html: &str) -> (r: Option<String>)
    ensures
        r is Some <==> login_hash_of(html@) is Some,
        r matches Some(s) ==> login_hash_of(html@) == Some(s@),
{
    let dom = match tl::parse(html, tl::ParserOptions::default()) {
        Ok(d) => d,
        Err(_) => return None,
    };
    let node = dom.query_selector("input[name='hash']")?.next()?;
    let tag = node.get(dom.parser())?.as_tag()?;
    let value = tag.attributes().get("value")??;
    Some(value.as_utf8_str().to_string())
}

/// Extracts the login hash: the value of the first `<input>` named `hash`
/// of the login page. Its absence is the distinct token failure, never a
/// default; the value changes per page load and is read fresh every time.
pub fn extract_login_hash(html: &str) -> (r: Result<String, Error>)
    ensures
        match r {
            Ok(h) => login_hash_of(html@) == Some(h@),
            Err(e) => login_hash_of(html@) is None && e == Error::TokenNotFound,
        },
{
    match hash_field_of(html) {
        Some(h) => Ok(h),
        None => Err(Error::TokenNotFound),
    }
}

/// The first index at or after `j` whose character is not whitespace, or
/// the length.
pub open spec fn first_non_ws(s: Seq<char>, j: int) -> int
    recommends
        0 <= j <= s.len(),
    decreases s.len() - j,
{
    if j < 0 || j >= s.len() {
        s.len() as int
    } else if is_ws_char(s[j]) {
        first_non_ws(s, j + 1)
    } else {
        j
    }
}

/// The first index at or after `j` whose character is not alphanumeric, or
/// the length.
pub open spec fn first_non_alnum(s: Seq<char>, j: int) -> int
    recommends
        0 <= j <= s.len(),
    decreases s.len() - j,
{
    if j < 0 || j >= s.len() {
        s.len() as int
    } else if is_alnum_char(s[j]) {
        first_non_alnum(s, j + 1)
    } else {
        j
    }
}

/// The token captured by the script pattern at position `i`: the literal
/// `csrfToken`, optional whitespace, `=`, optional whitespace, a quote, a
/// non-empty alphanumeric run, and the closing quote.
pub open spec fn spec_csrf_at(s: Seq<char>, i: int) -> Option<Seq<char>> {
    if !(0 <= i && i + 9 <= s.len() && s.subrange(i, i + 9) == "csrfToken"@) {
        None
    } else {
        let j1 = first_non_ws(s, i + 9);
        if !(j1 < s.len() && s[j1] == '=') {
            None
        } else {
            let j2 = first_non_ws(s, j1 + 1);
            if !(j2 < s.len() && s[j2] == '\'') {
                None
            } else {
                let e = first_non_alnum(s, j2 + 1);
                if e > j2 + 1 && e < s.len() && s[e] == '\'' {
                    Some(s.subrange(j2 + 1, e))
                } else {
                    None
                }
            }
        }
    }
}

/// The token of the leftmost position where the pattern matches.
pub open spec fn spec_csrf_from(s: Seq<char>, i: int) -> Option<Seq<char>>
    recommends
        0 <= i <= s.len(),
    decreases s.len() - i,
{
    if i < 0 || i >= s.len() {
        None
    } else {
        match spec_csrf_at(s, i) {
            Some(t) => Some(t),
            None => spec_csrf_from(s, i + 1),
        }
    }
}

/// The first token assigned under the `csrfToken = '<token>'` pattern.
pub open spec fn spec_csrf_token(s: Seq<char>) -> Option<Seq<char>> {
    spec_csrf_from(s, 0)
}

/// Whether `pat` occurs at position `i` of `chars`.
#[verifier::loop_isolation(false)]
fn seq_match_at(chars: &Vec<char>, i: usize, pat: &Vec<char>) -> (r: bool)
    requires
        i <= chars@.len(),
    ensures
        r == (i + pat@.len() <= chars@.len() && chars@.subrange(
            i as int,
            i + pat@.len(),
        ) == pat@),
{
    let m = pat.len();
    if chars.len() - i < m {
        return false;
    }
    let mut k: usize = 0;
    while k < m
        invariant
            k <= m,
            forall|t: int| 0 <= t < k ==> #[trigger] chars@[i + t] == pat@[t],
        decreases m - k,
    {
        if chars[i + k] != pat[k] {
            proof {
                assert(chars@.subrange(i as int, i + pat@.len())[k as int] == chars@[i + k]);
            }
            return false;
        }
        k = k + 1;
    }
    proof {
        assert forall|t: int| 0 <= t < pat@.len() implies chars@.subrange(
            i as int,
            i + pat@.len(),
        )[t] == pat@[t] by {
            assert(chars@[i + t] == pat@[t]);
        }
        assert(chars@.subrange(i as int, i + pat@.len()) =~= pat@);
    }
    true
}

/// The first non-whitespace position at or after `j`.
#[verifier::loop_isolation(false)]
fn skip_ws(chars: &Vec<char>, j: usize) -> (r: usize)
    requires
        j <= chars@.len(),
    ensures
        j <= r <= chars@.len(),
        r as int == first_non_ws(chars@, j as int),
{
    let n = chars.len();
    let mut k: usize = j;
    while k < n
        invariant
            j <= k <= n,
            first_non_ws(chars@, j as int) == first_non_ws(chars@, k as int),
        decreases n - k,
    {
        let c = chars[k];
        if !(c == ' ' || c == '\t' || c == '\r' || c == '\n' || c == '\u{0B}' || c == '\u{0C}') {
            return k;
        }
        k = k + 1;
    }
    k
}

/// The first non-alphanumeric position at or after `j`.
#[verifier::loop_isolation(false)]
fn skip_alnum(chars: &Vec<char>, j: usize) -> (r: usize)
    requires
        j <= chars@.len(),
    ensures
        j <= r <= chars@.len(),
        r as int == first_non_alnum(chars@, j as int),
{
    let n = chars.len();
    let mut k: usize = j;
    while k < n
        invariant
            j <= k <= n,
            first_non_alnum(chars@, j as int) == first_non_alnum(chars@, k as int),
        decreases n - k,
    {
        let c = chars[k];
        let u = c as u32;
        if !((48 <= u && u <= 57) || (65 <= u && u <= 90) || (97 <= u && u <= 122)) {
            proof {
                assert(!is_alnum_char(chars@[k as int]));
            }
            return k;
        }
        k = k + 1;
    }
    k
}

/// The pattern check at one position, as executable code.
#[verifier::loop_isolation(false)]
fn csrf_at(chars: &Vec<char>, i: usize, pat: &Vec<char>) -> (r: Option<(usize, usize)>)
    requires
        i <= chars@.len(),
        pat@ == "csrfToken"@,
        pat@.len() == 9,
    ensures
        match r {
            Some((a, b)) => a <= b <= chars@.len() && spec_csrf_at(chars@, i as int) == Some(
                chars@.subrange(a as int, b as int),
            ),
            None => spec_csrf_at(chars@, i as int) is None,
        },
{
    let n = chars.len();
    if !seq_match_at(chars, i, pat) {
        return None;
    }
    proof {
        assert(i + 9 <= n);
    }
    let j1 = skip_ws(chars, i + 9);
    if !(j1 < chars.len() && chars[j1] == '=') {
        return None;
    }
    let j2 = skip_ws(chars, j1 + 1);
    if !(j2 < chars.len() && chars[j2] == '\'') {
        return None;
    }
    let e = skip_alnum(chars, j2 + 1);
    if e > j2 + 1 && e < chars.len() && chars[e] == '\'' {
        Some((j2 + 1, e))
    } else {
        None
    }
}

/// Extracts the first token assigned under the `csrfToken = '<token>'`
/// script pattern of a page body; its absence is the distinct token
/// failure, never a default.
#[verifier::loop_isolation(false)]
pub fn extract_csrf_token(body: &str) -> (r: Result<String, Error>)
    ensures
        match r {
            Ok(t) => spec_csrf_token(body@) == Some(t@),
            Err(e) => spec_csrf_token(body@) is None && e == Error::TokenNotFound,
        },
{
    let chars = crate::strutil::chars_of(body);
    let pat = crate::strutil::chars_of("csrfToken");
    proof {
        reveal_strlit("csrfToken");
    }
    let n = chars.len();
    let mut i: usize = 0;
    while i < n
        invariant
            i <= n,
            spec_csrf_from(chars@, 0) == spec_csrf_from(chars@, i as int),
        decreases n - i,
    {
        match csrf_at(&chars, i, &pat) {
            Some((a, b)) => {
                let mut token: Vec<char> = Vec::new();
                let mut k: usize = a;
                while k < b
                    invariant
                        a <= k <= b <= chars@.len(),
                        token@ == chars@.subrange(a as int, k as int),
                    decreases b - k,
                {
                    token.push(chars[k]);
                    proof {
                        assert(token@ =~= chars@.subrange(a as int, k + 1));
                    }
                    k = k + 1;
                }
                return Ok(crate::strutil::string_of(&token));
            },
            None => {},
        }
        i = i + 1;
    }
    Err(Error::TokenNotFound)
}

} // verus!
