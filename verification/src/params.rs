use vstd::prelude::*;

verus! {

/// The comma-joined request parameter string in its fixed field order:
/// `<class>,<year>,<semester>,<student>,<curriculum>,<captcha>`.
pub open spec fn spec_params(
    class_code: Seq<char>,
    year: Seq<char>,
    semester: Seq<char>,
    student_id: Seq<char>,
    curriculum_id: Seq<char>,
    captcha: Seq<char>,
) -> Seq<char> {
    class_code + seq![','] + year + seq![','] + semester + seq![','] + student_id + seq![',']
        + curriculum_id + seq![','] + captcha
}

/// How many times `c` occurs in `s`.
pub open spec fn count_char(s: Seq<char>, c: char) -> nat
    decreases s.len(),
{
    if s.len() == 0 {
        0
    } else {
        (if s[0] == c {
            1nat
        } else {
            0nat
        }) + count_char(s.skip(1), c)
    }
}

/// Renders the request parameters as a comma-joined string in the fixed
/// field order.
pub fn build_params(
    class_code: &str,
    year: &str,
    semester: &str,
    student_id: &str,
    curriculum_id: &str,
    captcha: &str,
) -> (r: String)
    ensures
        r@ == spec_params(class_code@, year@, semester@, student_id@, curriculum_id@, captcha@),
{
    let mut s = String::from_str(class_code);
    s.append(",");
    s.append(year);
    s.append(",");
    s.append(semester);
    s.append(",");
    s.append(student_id);
    s.append(",");
    s.append(curriculum_id);
    s.append(",");
    s.append(captcha);
    proof {
        reveal_strlit(",");
        assert(","@ =~= seq![',']);
        assert(s@ =~= spec_params(
            class_code@,
            year@,
            semester@,
            student_id@,
            curriculum_id@,
            captcha@,
        ));
    }
    s
}

pub proof fn lemma_count_char_concat(a: Seq<char>, b: Seq<char>, c: char)
    ensures
        count_char(a + b, c) == count_char(a, c) + count_char(b, c),
    decreases a.len(),
{
    if a.len() == 0 {
        assert(a + b =~= b);
    } else {
        assert((a + b).skip(1) =~= a.skip(1) + b);
        lemma_count_char_concat(a.skip(1), b, c);
    }
}

/// The parameter string has exactly five comma separators whenever none of
/// the six fields itself contains a comma.
pub proof fn lemma_params_comma_count(
    class_code: Seq<char>,
    year: Seq<char>,
    semester: Seq<char>,
    student_id: Seq<char>,
    curriculum_id: Seq<char>,
    captcha: Seq<char>,
)
    requires
        count_char(class_code, ',') == 0,
        count_char(year, ',') == 0,
        count_char(semester, ',') == 0,
        count_char(student_id, ',') == 0,
        count_char(curriculum_id, ',') == 0,
        count_char(captcha, ',') == 0,
    ensures
        count_char(
            spec_params(class_code, year, semester, student_id, curriculum_id, captcha),
            ',',
        ) == 5,
{
    let comma = seq![','];
    assert(count_char(comma, ',') == 1) by {
        assert(comma.skip(1) =~= Seq::<char>::empty());
        assert(count_char(Seq::<char>::empty(), ',') == 0);
        assert(count_char(comma.skip(1), ',') == 0);
    }
    lemma_count_char_concat(class_code, comma, ',');
    lemma_count_char_concat(class_code + comma, year, ',');
    lemma_count_char_concat(class_code + comma + year, comma, ',');
    lemma_count_char_concat(class_code + comma + year + comma, semester, ',');
    lemma_count_char_concat(class_code + comma + year + comma + semester, comma, ',');
    lemma_count_char_concat(class_code + comma + year + comma + semester + comma, student_id, ',');
    lemma_count_char_concat(
        class_code + comma + year + comma + semester + comma + student_id,
        comma,
        ',',
    );
    lemma_count_char_concat(
        class_code + comma + year + comma + semester + comma + student_id + comma,
        curriculum_id,
        ',',
    );
    lemma_count_char_concat(
        class_code + comma + year + comma + semester + comma + student_id + comma + curriculum_id,
        comma,
        ',',
    );
    lemma_count_char_concat(
        class_code + comma + year + comma + semester + comma + student_id + comma + curriculum_id
            + comma,
        captcha,
        ',',
    );
}

} // verus!
