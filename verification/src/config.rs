use vstd::prelude::*;
use vstd::string::StrSliceExecFns;
use vstd::string::StringExecFns;
use crate::model::{Account, AccountV, Accounts};

verus! {

/// The configuration was missing, unreadable, or malformed.
#[derive(Clone, Copy, Debug, PartialEq, Eq, Structural)]
pub enum ConfigError {
    /// The file could not be read.
    Io,
    /// The text does not follow the configuration grammar.
    Malformed,
}

/// Whitespace inside a line: space, tab, and the carriage return of a CRLF
/// line ending.
pub open spec fn is_ws(c: char) -> bool {
    c == ' ' || c == '\t' || c == '\r'
}

/// The sequence without its leading whitespace.
pub open spec fn trim_front(s: Seq<char>) -> Seq<char>
    decreases s.len(),
{
    if s.len() > 0 && is_ws(s[0]) {
        trim_front(s.skip(1))
    } else {
        s
    }
}

/// The sequence without its trailing whitespace.
pub open spec fn trim_back(s: Seq<char>) -> Seq<char>
    decreases s.len(),
{
    if s.len() > 0 && is_ws(s.last()) {
        trim_back(s.drop_last())
    } else {
        s
    }
}

/// The sequence without leading or trailing whitespace.
pub open spec fn trim(s: Seq<char>) -> Seq<char> {
    trim_back(trim_front(s))
}

pub proof fn lemma_trim_front_len(s: Seq<char>)
    ensures
        trim_front(s).len() <= s.len(),
    decreases s.len(),
{
    if s.len() > 0 && is_ws(s[0]) {
        lemma_trim_front_len(s.skip(1));
    }
}

pub proof fn lemma_trim_back_len(s: Seq<char>)
    ensures
        trim_back(s).len() <= s.len(),
    decreases s.len(),
{
    if s.len() > 0 && is_ws(s.last()) {
        lemma_trim_back_len(s.drop_last());
    }
}

/// The first position at or after `i` that holds `c`, or the length where
/// none does.
pub open spec fn find_from(s: Seq<char>, i: int, c: char) -> int
    decreases s.len() - i,
{
    if i < 0 || i >= s.len() {
        s.len() as int
    } else if s[i] == c {
        i
    } else {
        find_from(s, i + 1, c)
    }
}

pub proof fn lemma_find_from_bounds(s: Seq<char>, i: int, c: char)
    requires
        0 <= i <= s.len(),
    ensures
        i <= find_from(s, i, c) <= s.len(),
    decreases s.len() - i,
{
    if i < s.len() && s[i] != c {
        lemma_find_from_bounds(s, i + 1, c);
    }
}

fn ws_char(c: char) -> (r: bool)
    ensures
        r == is_ws(c),
{
    c == ' ' || c == '\t' || c == '\r'
}

fn trim_front_str<'a>(s: &'a str) -> (r: &'a str)
    ensures
        r@ == trim_front(s@),
    decreases s@.len(),
{
    let n = s.unicode_len();
    if n > 0 && ws_char(s.get_char(0)) {
        let t = s.substring_char(1, n);
        proof {
            assert(t@ =~= s@.skip(1));
        }
        trim_front_str(t)
    } else {
        s
    }
}

fn trim_back_str<'a>(s: &'a str) -> (r: &'a str)
    ensures
        r@ == trim_back(s@),
    decreases s@.len(),
{
    let n = s.unicode_len();
    if n > 0 && ws_char(s.get_char(n - 1)) {
        let t = s.substring_char(0, n - 1);
        proof {
            assert(t@ =~= s@.drop_last());
        }
        trim_back_str(t)
    } else {
        s
    }
}

fn trim_str<'a>(s: &'a str) -> (r: &'a str)
    ensures
        r@ == trim(s@),
{
    trim_back_str(trim_front_str(s))
}

fn find_from_str(s: &str, i: usize, c: char) -> (r: usize)
    requires
        i <= s@.len(),
    ensures
        r as int == find_from(s@, i as int, c),
        i <= r <= s@.len(),
    decreases s@.len() - i,
{
    let n = s.unicode_len();
    if i >= n {
        n
    } else if s.get_char(i) == c {
        i
    } else {
        find_from_str(s, i + 1, c)
    }
}

/// Whether two string slices hold the same characters.
fn str_eq(a: &str, b: &str) -> (r: bool)
    ensures
        r == (a@ == b@),
{
    let na = a.unicode_len();
    let nb = b.unicode_len();
    if na != nb {
        proof {
            if a@ == b@ {
                assert(a@.len() == b@.len());
            }
        }
        return false;
    }
    let mut i: usize = 0;
    while i < na
        invariant
            i <= na,
            na == a@.len(),
            nb == b@.len(),
            na == nb,
            forall|k: int| 0 <= k < i ==> a@[k] == b@[k],
        decreases na - i,
    {
        if a.get_char(i) != b.get_char(i) {
            proof {
                if a@ == b@ {
                    assert(a@[i as int] == b@[i as int]);
                }
            }
            return false;
        }
        i += 1;
    }
    proof {
        assert(a@ =~= b@);
    }
    true
}

/// The account field a configuration key names.
#[derive(Clone, Copy, Debug, PartialEq, Eq, Structural)]
pub enum FieldKey {
    SessionId,
    ClassCodes,
    StudentId,
    CurriculumId,
    Captcha,
}

/// Which account field the given key text names; unknown keys are rejected.
pub open spec fn key_of(k: Seq<char>) -> Option<FieldKey> {
    if k == "session_id"@ {
        Some(FieldKey::SessionId)
    } else if k == "class_codes"@ {
        Some(FieldKey::ClassCodes)
    } else if k == "student_id"@ {
        Some(FieldKey::StudentId)
    } else if k == "curriculum_id"@ {
        Some(FieldKey::CurriculumId)
    } else if k == "captcha"@ {
        Some(FieldKey::Captcha)
    } else {
        None
    }
}

fn key_of_str(k: &str) -> (r: Option<FieldKey>)
    ensures
        r == key_of(k@),
{
    if str_eq(k, "session_id") {
        Some(FieldKey::SessionId)
    } else if str_eq(k, "class_codes") {
        Some(FieldKey::ClassCodes)
    } else if str_eq(k, "student_id") {
        Some(FieldKey::StudentId)
    } else if str_eq(k, "curriculum_id") {
        Some(FieldKey::CurriculumId)
    } else if str_eq(k, "captcha") {
        Some(FieldKey::Captcha)
    } else {
        None
    }
}

/// A parsed value: a single quoted string, or an array of quoted strings.
pub enum FieldVal {
    One(String),
    Many(Vec<String>),
}

/// The mathematical value of a `FieldVal`.
pub ghost enum FieldValV {
    One(Seq<char>),
    Many(Seq<Seq<char>>),
}

impl View for FieldVal {
    type V = FieldValV;

    open spec fn view(&self) -> FieldValV {
        match self {
            FieldVal::One(s) => FieldValV::One(s@),
            FieldVal::Many(v) => FieldValV::Many(v.deep_view()),
        }
    }
}

/// Parses the inside of an array value: quoted strings separated by commas,
/// with a trailing comma allowed. Escape sequences are not part of the
/// accepted subset: a backslash rejects the item.
pub open spec fn parse_items(u: Seq<char>) -> Option<Seq<Seq<char>>>
    decreases u.len(),
    via parse_items_dec
{
    if u.len() == 0 {
        Some(Seq::empty())
    } else if u[0] != '"' {
        None
    } else {
        let q = find_from(u, 1, '"');
        if q >= u.len() {
            None
        } else {
            let item = u.subrange(1, q);
            if find_from(item, 0, '\\') < item.len() {
                None
            } else {
                let rest = trim_front(u.skip(q + 1));
                if rest.len() == 0 {
                    Some(seq![item])
                } else if rest[0] == ',' {
                    let rest2 = trim_front(rest.skip(1));
                    if rest2.len() == 0 {
                        Some(seq![item])
                    } else {
                        match parse_items(rest2) {
                            Some(t) => Some(seq![item] + t),
                            None => None,
                        }
                    }
                } else {
                    None
                }
            }
        }
    }
}

#[via_fn]
proof fn parse_items_dec(u: Seq<char>) {
    if u.len() > 0 && u[0] == '"' {
        lemma_find_from_bounds(u, 1, '"');
        let q = find_from(u, 1, '"');
        if q < u.len() {
            lemma_trim_front_len(u.skip(q + 1));
            let rest = trim_front(u.skip(q + 1));
            if rest.len() > 0 {
                lemma_trim_front_len(rest.skip(1));
            }
        }
    }
}

/// Parses a value: `"text"` without inner quotes or backslashes, or
/// `[ "a", "b" ]` of such strings.
pub open spec fn parse_value(v: Seq<char>) -> Option<FieldValV> {
    if v.len() >= 2 && v[0] == '"' && v.last() == '"' {
        let inner = v.subrange(1, v.len() - 1);
        if find_from(inner, 0, '"') < inner.len() || find_from(inner, 0, '\\') < inner.len() {
            None
        } else {
            Some(FieldValV::One(inner))
        }
    } else if v.len() >= 2 && v[0] == '[' && v.last() == ']' {
        match parse_items(trim(v.subrange(1, v.len() - 1))) {
            Some(items) => Some(FieldValV::Many(items)),
            None => None,
        }
    } else {
        None
    }
}

pub proof fn lemma_insert0_deep_view<T: DeepView>(v1: Vec<T>, v2: Vec<T>, x: T)
    requires
        v2@ == v1@.insert(0, x),
    ensures
        v2.deep_view() == seq![x.deep_view()] + v1.deep_view(),
{
    assert forall|k: int| 0 <= k < v2.deep_view().len() implies v2.deep_view()[k] == (seq![
        x.deep_view(),
    ] + v1.deep_view())[k] by {
        if k == 0 {
            assert(v2@[0] == x);
        } else {
            assert(v2@[k] == v1@[k - 1]);
        }
    }
    assert(v2.deep_view() =~= seq![x.deep_view()] + v1.deep_view());
}

pub proof fn lemma_push_deep_view<T: DeepView>(v1: Vec<T>, v2: Vec<T>, x: T)
    requires
        v2@ == v1@.push(x),
    ensures
        v2.deep_view() == v1.deep_view().push(x.deep_view()),
{
    assert forall|k: int| 0 <= k < v2.deep_view().len() implies v2.deep_view()[k]
        == v1.deep_view().push(x.deep_view())[k] by {
        if k < v1@.len() {
            assert(v2@[k] == v1@[k]);
        } else {
            assert(v2@[k] == x);
        }
    }
    assert(v2.deep_view() =~= v1.deep_view().push(x.deep_view()));
}

fn parse_items_str(u: &str) -> (r: Option<Vec<String>>)
    ensures
        r matches Some(v) ==> parse_items(u@) == Some(v.deep_view()),
        r is None ==> parse_items(u@) is None,
    decreases u@.len(),
{
    let n = u.unicode_len();
    if n == 0 {
        let v: Vec<String> = Vec::new();
        proof {
            assert(v.deep_view() =~= Seq::<Seq<char>>::empty());
        }
        Some(v)
    } else if u.get_char(0) != '"' {
        None
    } else {
        let q = find_from_str(u, 1, '"');
        if q >= n {
            None
        } else {
            let item = u.substring_char(1, q);
            proof {
                assert(item@ =~= u@.subrange(1, q as int));
            }
            let ni = item.unicode_len();
            if find_from_str(item, 0, '\\') < ni {
                None
            } else {
                let tail = u.substring_char(q + 1, n);
                proof {
                    assert(tail@ =~= u@.skip(q as int + 1));
                }
                let rest = trim_front_str(tail);
                let nr = rest.unicode_len();
                if nr == 0 {
                    let mut v: Vec<String> = Vec::new();
                    v.push(String::from_str(item));
                    proof {
                        assert(v.deep_view() =~= seq![item@]) by {
                            assert(v@.len() == 1);
                            assert(v@[0]@ == item@);
                        }
                    }
                    Some(v)
                } else if rest.get_char(0) == ',' {
                    let rest_tail = rest.substring_char(1, nr);
                    proof {
                        assert(rest_tail@ =~= rest@.skip(1));
                    }
                    let rest2 = trim_front_str(rest_tail);
                    if rest2.unicode_len() == 0 {
                        let mut v: Vec<String> = Vec::new();
                        v.push(String::from_str(item));
                        proof {
                            assert(v.deep_view() =~= seq![item@]) by {
                                assert(v@.len() == 1);
                                assert(v@[0]@ == item@);
                            }
                        }
                        Some(v)
                    } else {
                        proof {
                            lemma_trim_front_len(tail@);
                            lemma_trim_front_len(rest_tail@);
                        }
                        match parse_items_str(rest2) {
                            Some(t) => {
                                let item_s = String::from_str(item);
                                let ghost t0 = t;
                                let ghost item_s0 = item_s;
                                let mut t = t;
                                t.insert(0, item_s);
                                proof {
                                    lemma_insert0_deep_view(t0, t, item_s0);
                                }
                                Some(t)
                            },
                            None => None,
                        }
                    }
                } else {
                    None
                }
            }
        }
    }
}

fn parse_value_str(v: &str) -> (r: Option<FieldVal>)
    ensures
        r matches Some(val) ==> parse_value(v@) == Some(val@),
        r is None ==> parse_value(v@) is None,
{
    let n = v.unicode_len();
    if n >= 2 && v.get_char(0) == '"' && v.get_char(n - 1) == '"' {
        let inner = v.substring_char(1, n - 1);
        proof {
            assert(inner@ =~= v@.subrange(1, v@.len() - 1));
        }
        let ni = inner.unicode_len();
        if find_from_str(inner, 0, '"') < ni || find_from_str(inner, 0, '\\') < ni {
            None
        } else {
            Some(FieldVal::One(String::from_str(inner)))
        }
    } else if n >= 2 && v.get_char(0) == '[' && v.get_char(n - 1) == ']' {
        let body0 = v.substring_char(1, n - 1);
        proof {
            assert(body0@ =~= v@.subrange(1, v@.len() - 1));
        }
        let body = trim_str(body0);
        match parse_items_str(body) {
            Some(items) => Some(FieldVal::Many(items)),
            None => None,
        }
    } else {
        None
    }
}

/// What one configuration line says.
pub enum LineEvent {
    /// Empty, whitespace, or a comment.
    Blank,
    /// The `[[acc]]` table header opening a new account.
    Header,
    /// A `key = value` assignment.
    Field(FieldKey, FieldVal),
    /// A line outside the grammar.
    Bad,
}

/// The mathematical value of a `LineEvent`.
pub ghost enum LineEventV {
    Blank,
    Header,
    Field(FieldKey, FieldValV),
    Bad,
}

impl View for LineEvent {
    type V = LineEventV;

    open spec fn view(&self) -> LineEventV {
        match self {
            LineEvent::Blank => LineEventV::Blank,
            LineEvent::Header => LineEventV::Header,
            LineEvent::Field(k, v) => LineEventV::Field(*k, v@),
            LineEvent::Bad => LineEventV::Bad,
        }
    }
}

/// Classifies one line: blank or comment, the `[[acc]]` header, or a
/// `key = value` assignment, the key and value trimmed of surrounding
/// whitespace. The line's first `=` separates key from value.
pub open spec fn classify(l: Seq<char>) -> LineEventV {
    let t = trim(l);
    if t.len() == 0 || t[0] == '#' {
        LineEventV::Blank
    } else if t == "[[acc]]"@ {
        LineEventV::Header
    } else {
        let e = find_from(t, 0, '=');
        if e >= t.len() {
            LineEventV::Bad
        } else {
            let k = trim(t.take(e));
            let v = trim(t.skip(e + 1));
            match key_of(k) {
                None => LineEventV::Bad,
                Some(key) => match parse_value(v) {
                    None => LineEventV::Bad,
                    Some(val) => LineEventV::Field(key, val),
                },
            }
        }
    }
}

fn classify_line(line: &str) -> (r: LineEvent)
    ensures
        r@ == classify(line@),
{
    let t = trim_str(line);
    let n = t.unicode_len();
    if n == 0 {
        return LineEvent::Blank;
    }
    if t.get_char(0) == '#' {
        return LineEvent::Blank;
    }
    if str_eq(t, "[[acc]]") {
        return LineEvent::Header;
    }
    let e = find_from_str(t, 0, '=');
    if e >= n {
        return LineEvent::Bad;
    }
    let kpart = t.substring_char(0, e);
    let vpart = t.substring_char(e + 1, n);
    proof {
        assert(kpart@ =~= t@.take(e as int));
        assert(vpart@ =~= t@.skip(e as int + 1));
    }
    let k = trim_str(kpart);
    let v = trim_str(vpart);
    match key_of_str(k) {
        None => LineEvent::Bad,
        Some(key) => match parse_value_str(v) {
            None => LineEvent::Bad,
            Some(val) => LineEvent::Field(key, val),
        },
    }
}

/// An account under construction: the fields its table has assigned so far.
pub struct Partial {
    pub session_id: Option<String>,
    pub class_codes: Option<Vec<String>>,
    pub student_id: Option<String>,
    pub curriculum_id: Option<String>,
    pub captcha: Option<String>,
}

/// The mathematical value of a `Partial`.
pub ghost struct PartialV {
    pub session_id: Option<Seq<char>>,
    pub class_codes: Option<Seq<Seq<char>>>,
    pub student_id: Option<Seq<char>>,
    pub curriculum_id: Option<Seq<char>>,
    pub captcha: Option<Seq<char>>,
}

impl View for Partial {
    type V = PartialV;

    open spec fn view(&self) -> PartialV {
        PartialV {
            session_id: self.session_id.deep_view(),
            class_codes: self.class_codes.deep_view(),
            student_id: self.student_id.deep_view(),
            curriculum_id: self.curriculum_id.deep_view(),
            captcha: self.captcha.deep_view(),
        }
    }
}

/// A fresh table with no field assigned yet.
pub open spec fn empty_partial() -> PartialV {
    PartialV {
        session_id: None,
        class_codes: None,
        student_id: None,
        curriculum_id: None,
        captcha: None,
    }
}

fn new_partial() -> (r: Partial)
    ensures
        r@ == empty_partial(),
{
    Partial {
        session_id: None,
        class_codes: None,
        student_id: None,
        curriculum_id: None,
        captcha: None,
    }
}

/// The finished account, if every required field was assigned.
pub open spec fn complete(p: PartialV) -> Option<AccountV> {
    match (p.session_id, p.class_codes, p.student_id, p.curriculum_id, p.captcha) {
        (Some(s), Some(cc), Some(st), Some(cu), Some(ca)) => Some(
            AccountV { session_id: s, class_codes: cc, student_id: st, curriculum_id: cu, captcha: ca },
        ),
        _ => None,
    }
}

fn complete_partial(p: Partial) -> (r: Option<Account>)
    ensures
        r matches Some(a) ==> complete(p@) == Some(a@),
        r is None ==> complete(p@) is None,
{
    match (p.session_id, p.class_codes, p.student_id, p.curriculum_id, p.captcha) {
        (Some(s), Some(cc), Some(st), Some(cu), Some(ca)) => Some(
            Account {
                session_id: s,
                class_codes: cc,
                student_id: st,
                curriculum_id: cu,
                captcha: ca,
            },
        ),
        _ => None,
    }
}

/// Assigns one field of the table under construction; a duplicate key or a
/// value of the wrong shape (class_codes wants an array, every other key a
/// string) is rejected.
pub open spec fn set_field(p: PartialV, key: FieldKey, val: FieldValV) -> Option<PartialV> {
    match key {
        FieldKey::SessionId => match (p.session_id, val) {
            (None, FieldValV::One(s)) => Some(PartialV { session_id: Some(s), ..p }),
            _ => None,
        },
        FieldKey::ClassCodes => match (p.class_codes, val) {
            (None, FieldValV::Many(v)) => Some(PartialV { class_codes: Some(v), ..p }),
            _ => None,
        },
        FieldKey::StudentId => match (p.student_id, val) {
            (None, FieldValV::One(s)) => Some(PartialV { student_id: Some(s), ..p }),
            _ => None,
        },
        FieldKey::CurriculumId => match (p.curriculum_id, val) {
            (None, FieldValV::One(s)) => Some(PartialV { curriculum_id: Some(s), ..p }),
            _ => None,
        },
        FieldKey::Captcha => match (p.captcha, val) {
            (None, FieldValV::One(s)) => Some(PartialV { captcha: Some(s), ..p }),
            _ => None,
        },
    }
}

fn set_field_exec(p: Partial, key: FieldKey, val: FieldVal) -> (r: Option<Partial>)
    ensures
        r matches Some(p2) ==> set_field(p@, key, val@) == Some(p2@),
        r is None ==> set_field(p@, key, val@) is None,
{
    match key {
        FieldKey::SessionId => {
            if p.session_id.is_some() {
                return None;
            }
            match val {
                FieldVal::One(s) => Some(Partial { session_id: Some(s), ..p }),
                _ => None,
            }
        },
        FieldKey::ClassCodes => {
            if p.class_codes.is_some() {
                return None;
            }
            match val {
                FieldVal::Many(v) => Some(Partial { class_codes: Some(v), ..p }),
                _ => None,
            }
        },
        FieldKey::StudentId => {
            if p.student_id.is_some() {
                return None;
            }
            match val {
                FieldVal::One(s) => Some(Partial { student_id: Some(s), ..p }),
                _ => None,
            }
        },
        FieldKey::CurriculumId => {
            if p.curriculum_id.is_some() {
                return None;
            }
            match val {
                FieldVal::One(s) => Some(Partial { curriculum_id: Some(s), ..p }),
                _ => None,
            }
        },
        FieldKey::Captcha => {
            if p.captcha.is_some() {
                return None;
            }
            match val {
                FieldVal::One(s) => Some(Partial { captcha: Some(s), ..p }),
                _ => None,
            }
        },
    }
}

/// The parser's state: the table under construction, if one is open, and
/// the accounts already closed.
pub struct ParserSt {
    pub cur: Option<Partial>,
    pub done: Vec<Account>,
}

/// The mathematical value of a `ParserSt`.
pub ghost struct ParserStV {
    pub cur: Option<PartialV>,
    pub done: Seq<AccountV>,
}

impl View for ParserSt {
    type V = ParserStV;

    open spec fn view(&self) -> ParserStV {
        ParserStV {
            cur: match self.cur {
                Some(p) => Some(p@),
                None => None,
            },
            done: self.done.deep_view(),
        }
    }
}

/// The state before any line: no table open, no account closed.
pub open spec fn initial_state() -> ParserStV {
    ParserStV { cur: None, done: Seq::empty() }
}

/// One parsing step: a bad line rejects; a blank line changes nothing; a
/// header closes the open table, which must be complete, and opens a fresh
/// one; an assignment needs an open table and fills one of its fields.
pub open spec fn step(st: ParserStV, e: LineEventV) -> Option<ParserStV> {
    match e {
        LineEventV::Bad => None,
        LineEventV::Blank => Some(st),
        LineEventV::Header => match st.cur {
            None => Some(ParserStV { cur: Some(empty_partial()), done: st.done }),
            Some(p) => match complete(p) {
                Some(a) => Some(ParserStV { cur: Some(empty_partial()), done: st.done.push(a) }),
                None => None,
            },
        },
        LineEventV::Field(key, val) => match st.cur {
            None => None,
            Some(p) => match set_field(p, key, val) {
                Some(p2) => Some(ParserStV { cur: Some(p2), done: st.done }),
                None => None,
            },
        },
    }
}

fn step_state(st: ParserSt, e: LineEvent) -> (r: Option<ParserSt>)
    ensures
        r matches Some(s2) ==> step(st@, e@) == Some(s2@),
        r is None ==> step(st@, e@) is None,
{
    match e {
        LineEvent::Bad => None,
        LineEvent::Blank => Some(st),
        LineEvent::Header => match st.cur {
            None => Some(ParserSt { cur: Some(new_partial()), done: st.done }),
            Some(p) => match complete_partial(p) {
                Some(a) => {
                    let ghost d0 = st.done;
                    let ghost a0 = a;
                    let mut done = st.done;
                    done.push(a);
                    proof {
                        lemma_push_deep_view(d0, done, a0);
                    }
                    Some(ParserSt { cur: Some(new_partial()), done })
                },
                None => None,
            },
        },
        LineEvent::Field(key, val) => match st.cur {
            None => None,
            Some(p) => match set_field_exec(p, key, val) {
                Some(p2) => Some(ParserSt { cur: Some(p2), done: st.done }),
                None => None,
            },
        },
    }
}

/// The parse's last act: close the still-open table, if any; it must be
/// complete.
pub open spec fn finish(st: ParserStV) -> Option<Seq<AccountV>> {
    match st.cur {
        None => Some(st.done),
        Some(p) => match complete(p) {
            Some(a) => Some(st.done.push(a)),
            None => None,
        },
    }
}

fn finish_state(st: ParserSt) -> (r: Option<Vec<Account>>)
    ensures
        r matches Some(v) ==> finish(st@) == Some(v.deep_view()),
        r is None ==> finish(st@) is None,
{
    match st.cur {
        None => Some(st.done),
        Some(p) => match complete_partial(p) {
            Some(a) => {
                let ghost d0 = st.done;
                let ghost a0 = a;
                let mut done = st.done;
                done.push(a);
                proof {
                    lemma_push_deep_view(d0, done, a0);
                }
                Some(done)
            },
            None => None,
        },
    }
}

/// The parse of the text from position `i` on, in state `st`: one line per
/// step, lines ending at a line feed or at the end of the text.
pub open spec fn parse_from(s: Seq<char>, i: int, st: ParserStV) -> Option<Seq<AccountV>>
    decreases s.len() - i + 1,
    via parse_from_dec
{
    if i < 0 || i >= s.len() {
        finish(st)
    } else {
        let j = find_from(s, i, '\n');
        match step(st, classify(s.subrange(i, j))) {
            None => None,
            Some(st2) => parse_from(s, j + 1, st2),
        }
    }
}

#[via_fn]
proof fn parse_from_dec(s: Seq<char>, i: int, st: ParserStV) {
    if 0 <= i < s.len() {
        lemma_find_from_bounds(s, i, '\n');
    }
}

/// The accounts the configuration text denotes, or nothing where the text
/// is outside the grammar: `[[acc]]` tables in order, each assigning all
/// five fields, each exactly once; blank lines and `#` comments between.
pub open spec fn spec_parse_accounts(s: Seq<char>) -> Option<Seq<AccountV>> {
    parse_from(s, 0, initial_state())
}

/// Parses the configuration text into the ordered account list. Success if
/// and only if the text follows the grammar: a sequence of `[[acc]]` tables,
/// each assigning `session_id`, `class_codes` (an array of strings),
/// `student_id`, `curriculum_id` and `captcha`, each exactly once; unknown
/// keys, repeated keys, incomplete tables and assignments outside a table
/// are rejected.
pub fn parse_accounts(s: &str) -> (r: Result<Accounts, ConfigError>)
    ensures
        r matches Ok(a) ==> spec_parse_accounts(s@) == Some(a@),
        r matches Err(e) ==> e == ConfigError::Malformed && spec_parse_accounts(s@) is None,
{
    let n = s.unicode_len();
    let mut st = ParserSt { cur: None, done: Vec::new() };
    let mut i: usize = 0;
    proof {
        assert(st@.done =~= Seq::<AccountV>::empty());
        assert(st@ == initial_state());
    }
    while i < n
        invariant
            i <= n,
            n == s@.len(),
            parse_from(s@, i as int, st@) == spec_parse_accounts(s@),
        decreases n - i,
    {
        let j = find_from_str(s, i, '\n');
        let line = s.substring_char(i, j);
        proof {
            assert(line@ =~= s@.subrange(i as int, j as int));
        }
        let e = classify_line(line);
        let ghost st_v = st@;
        match step_state(st, e) {
            Some(st2) => {
                proof {
                    assert(parse_from(s@, i as int, st_v) == parse_from(s@, j as int + 1, st2@));
                }
                st = st2;
                // The next line starts past the line feed; at the text's end
                // there is none to step over.
                i = if j < n {
                    j + 1
                } else {
                    n
                };
            },
            None => {
                proof {
                    assert(parse_from(s@, i as int, st_v) is None);
                }
                return Err(ConfigError::Malformed);
            },
        }
    }
    match finish_state(st) {
        Some(done) => Ok(Accounts { acc: done }),
        None => Err(ConfigError::Malformed),
    }
}

} // verus!
