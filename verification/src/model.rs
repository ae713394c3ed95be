use vstd::prelude::*;

verus! {

/// One credentialed identity: a session, the class codes to register, and
/// the student's identifying fields. Every field is an opaque string the
/// system neither validates nor interprets.
#[derive(Debug)]
pub struct Account {
    pub session_id: String,
    pub class_codes: Vec<String>,
    pub student_id: String,
    pub curriculum_id: String,
    pub captcha: String,
}

/// The mathematical value of an `Account`.
pub ghost struct AccountV {
    pub session_id: Seq<char>,
    pub class_codes: Seq<Seq<char>>,
    pub student_id: Seq<char>,
    pub curriculum_id: Seq<char>,
    pub captcha: Seq<char>,
}

impl View for Account {
    type V = AccountV;

    open spec fn view(&self) -> AccountV {
        AccountV {
            session_id: self.session_id@,
            class_codes: self.class_codes.deep_view(),
            student_id: self.student_id@,
            curriculum_id: self.curriculum_id@,
            captcha: self.captcha@,
        }
    }
}

impl DeepView for Account {
    type V = AccountV;

    open spec fn deep_view(&self) -> AccountV {
        self.view()
    }
}

/// The ordered sequence of accounts: the top-level configuration entity.
#[derive(Debug)]
pub struct Accounts {
    pub acc: Vec<Account>,
}

impl View for Accounts {
    type V = Seq<AccountV>;

    open spec fn view(&self) -> Seq<AccountV> {
        self.acc.deep_view()
    }
}

/// The registration context scoping a run: the academic year and the
/// semester within it, fixed at startup and never mutated.
pub struct Context {
    pub year: String,
    pub semester: String,
}

/// One submission unit: the session that authenticates it, the class code
/// it registers, and the comma-joined parameter string it will carry.
pub struct Submission {
    pub session_id: String,
    pub class_code: String,
    pub params: String,
}

/// The mathematical value of a `Submission`.
pub ghost struct SubmissionV {
    pub session_id: Seq<char>,
    pub class_code: Seq<char>,
    pub params: Seq<char>,
}

impl View for Submission {
    type V = SubmissionV;

    open spec fn view(&self) -> SubmissionV {
        SubmissionV {
            session_id: self.session_id@,
            class_code: self.class_code@,
            params: self.params@,
        }
    }
}

impl DeepView for Submission {
    type V = SubmissionV;

    open spec fn deep_view(&self) -> SubmissionV {
        self.view()
    }
}

} // verus!
