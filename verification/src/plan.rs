use vstd::prelude::*;
use vstd::utf8::encode_utf8;
use crate::model::{AccountV, Accounts, Context, Submission, SubmissionV};
use crate::params::{build_params, spec_params};
use crate::crypto::{encrypt_envelope, spec_envelope, CryptoError, AES_LEN_LIMIT};

verus! {

/// The submissions one account contributes: one per class code, in the
/// account's order, each carrying that account's session and fields.
pub open spec fn plan_one(a: AccountV, year: Seq<char>, semester: Seq<char>) -> Seq<SubmissionV> {
    Seq::new(
        a.class_codes.len(),
        |j: int|
            SubmissionV {
                session_id: a.session_id,
                class_code: a.class_codes[j],
                params: spec_params(
                    a.class_codes[j],
                    year,
                    semester,
                    a.student_id,
                    a.curriculum_id,
                    a.captcha,
                ),
            },
    )
}

/// The whole plan: every account's submissions, accounts in given order.
pub open spec fn spec_plan(
    accs: Seq<AccountV>,
    year: Seq<char>,
    semester: Seq<char>,
) -> Seq<SubmissionV>
    decreases accs.len(),
{
    if accs.len() == 0 {
        Seq::empty()
    } else {
        plan_one(accs[0], year, semester) + spec_plan(accs.skip(1), year, semester)
    }
}

/// The total number of class codes over all accounts.
pub open spec fn total_classes(accs: Seq<AccountV>) -> nat
    decreases accs.len(),
{
    if accs.len() == 0 {
        0
    } else {
        accs[0].class_codes.len() + total_classes(accs.skip(1))
    }
}

/// The driver plans exactly one submission per (account, class code) pair:
/// the plan's length is the sum of the accounts' class-code counts.
pub proof fn lemma_plan_count(accs: Seq<AccountV>, year: Seq<char>, semester: Seq<char>)
    ensures
        spec_plan(accs, year, semester).len() == total_classes(accs),
    decreases accs.len(),
{
    if accs.len() > 0 {
        lemma_plan_count(accs.skip(1), year, semester);
    }
}

pub proof fn lemma_spec_plan_snoc(accs: Seq<AccountV>, a: AccountV, year: Seq<char>, semester: Seq<char>)
    ensures
        spec_plan(accs.push(a), year, semester) == spec_plan(accs, year, semester) + plan_one(
            a,
            year,
            semester,
        ),
    decreases accs.len(),
{
    if accs.len() == 0 {
        assert(accs.push(a).skip(1) =~= Seq::<AccountV>::empty());
        assert(spec_plan(Seq::<AccountV>::empty(), year, semester) =~= Seq::<SubmissionV>::empty());
        assert(accs.push(a)[0] == a);
        assert(spec_plan(accs.push(a), year, semester) =~= plan_one(a, year, semester));
        assert(spec_plan(accs, year, semester) + plan_one(a, year, semester) =~= plan_one(
            a,
            year,
            semester,
        ));
    } else {
        assert(accs.push(a).skip(1) =~= accs.skip(1).push(a));
        lemma_spec_plan_snoc(accs.skip(1), a, year, semester);
        assert(spec_plan(accs.push(a), year, semester) =~= spec_plan(accs, year, semester)
            + plan_one(a, year, semester));
    }
}

/// Builds the full plan: one submission per (account, class code) pair, in
/// account order and, within an account, in class-code order. The plan is
/// fixed before any request is made, so no submission's fate can change
/// which submissions are attempted.
pub fn plan_submissions(accounts: &Accounts, ctx: &Context) -> (r: Vec<Submission>)
    ensures
        r.deep_view() == spec_plan(accounts@, ctx.year@, ctx.semester@),
        r.len() == total_classes(accounts@),
{
    let ghost y = ctx.year@;
    let ghost s = ctx.semester@;
    let mut r: Vec<Submission> = Vec::new();
    let mut i: usize = 0;
    proof {
        assert(accounts@.take(0) =~= Seq::<AccountV>::empty());
        assert(r.deep_view() =~= spec_plan(accounts@.take(0), y, s));
    }
    while i < accounts.acc.len()
        invariant
            i <= accounts.acc.len(),
            accounts@.len() == accounts.acc.len(),
            r.deep_view() == spec_plan(accounts@.take(i as int), y, s),
            y == ctx.year@,
            s == ctx.semester@,
        decreases accounts.acc.len() - i,
    {
        let a = &accounts.acc[i];
        let ghost av = accounts@[i as int];
        let mut j: usize = 0;
        proof {
            assert(r.deep_view() + plan_one(av, y, s).take(0) =~= r.deep_view());
        }
        while j < a.class_codes.len()
            invariant
                j <= a.class_codes.len(),
                i < accounts.acc.len(),
                accounts@.len() == accounts.acc.len(),
                a@ == av,
                av == accounts@[i as int],
                av.class_codes.len() == a.class_codes.len(),
                r.deep_view() == spec_plan(accounts@.take(i as int), y, s) + plan_one(
                    av,
                    y,
                    s,
                ).take(j as int),
                y == ctx.year@,
                s == ctx.semester@,
            decreases a.class_codes.len() - j,
        {
            let params = build_params(
                a.class_codes[j].as_str(),
                ctx.year.as_str(),
                ctx.semester.as_str(),
                a.student_id.as_str(),
                a.curriculum_id.as_str(),
                a.captcha.as_str(),
            );
            let sub = Submission {
                session_id: a.session_id.clone(),
                class_code: a.class_codes[j].clone(),
                params,
            };
            proof {
                assert(sub@ == plan_one(av, y, s)[j as int]);
            }
            let ghost prev = r@;
            let ghost prev_dv = r.deep_view();
            let ghost subv = sub@;
            r.push(sub);
            proof {
                assert(r@ == prev.push(sub));
                assert(r.deep_view() =~= prev_dv.push(subv)) by {
                    assert forall|k: int| 0 <= k < r@.len() implies r.deep_view()[k]
                        == prev_dv.push(subv)[k] by {
                        if k < prev.len() {
                            assert(r@[k] == prev[k]);
                            assert(prev_dv[k] == prev[k].deep_view());
                        } else {
                            assert(r@[k] == sub);
                        }
                    }
                }
                assert(prev_dv.push(subv) =~= spec_plan(accounts@.take(i as int), y, s) + plan_one(
                    av,
                    y,
                    s,
                ).take(j as int + 1));
            }
            j += 1;
        }
        proof {
            assert(plan_one(av, y, s).take(j as int) =~= plan_one(av, y, s));
            assert(accounts@.take(i as int + 1) =~= accounts@.take(i as int).push(av));
            lemma_spec_plan_snoc(accounts@.take(i as int), av, y, s);
        }
        i += 1;
    }
    proof {
        assert(accounts@.take(i as int) =~= accounts@);
        lemma_plan_count(accounts@, y, s);
    }
    r
}

/// The cookie value that authenticates a session.
pub open spec fn spec_cookie(session_id: Seq<char>) -> Seq<char> {
    "ASP.NET_SessionId="@ + session_id
}

/// The request body wrapping a transport token as the single-key object the
/// endpoint expects. The token is base64, so it needs no escaping.
pub open spec fn spec_body(envelope: Seq<char>) -> Seq<char> {
    "{\"encryptedPara\":\""@ + envelope + "\"}"@
}

/// Renders the session cookie `ASP.NET_SessionId=<session_id>`.
pub fn cookie_value(session_id: &str) -> (r: String)
    ensures
        r@ == spec_cookie(session_id@),
{
    let mut r = String::from_str("ASP.NET_SessionId=");
    r.append(session_id);
    r
}

/// One ready-to-send request: the cookie value that authenticates it and
/// the JSON body it carries.
pub struct HttpRequest {
    pub cookie: String,
    pub body: String,
}

/// Prepares one submission for sending: encrypts its parameter string into
/// the transport token and wraps the token in the JSON body, with the
/// session cookie beside it. Every parameter string inside the machine's
/// length limit yields a request; an error concerns this submission alone.
pub fn prepare_request(sub: &Submission) -> (r: Result<HttpRequest, CryptoError>)
    ensures
        r matches Ok(q) ==> q.cookie@ == spec_cookie(sub.session_id@) && q.body@ == spec_body(
            spec_envelope(encode_utf8(sub.params@)),
        ),
        encode_utf8(sub.params@).len() < AES_LEN_LIMIT ==> r is Ok,
{
    match encrypt_envelope(sub.params.as_str()) {
        Ok(e) => {
            let mut body = String::from_str("{\"encryptedPara\":\"");
            body.append(e.as_str());
            body.append("\"}");
            Ok(HttpRequest { cookie: cookie_value(sub.session_id.as_str()), body })
        },
        Err(err) => Err(err),
    }
}

} // verus!
