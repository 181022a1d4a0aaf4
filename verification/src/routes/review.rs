use vstd::prelude::*;

use crate::validation::{
    check_email, check_url, finish_validation, in_range, is_email, is_url, violation, ParamValue,
    ParamValueView, Rule, Validate, ValidationErrors, Violation, ViolationView,
};

verus! {

/// A colour picked for the review listing.
#[derive(Clone, Copy, Debug, PartialEq, Eq, Structural)]
pub enum Color {
    Blue,
    Green,
    Red,
}

/// The body of a new review: a mail address, a site URL and an age from
/// 18 to 20.
pub struct SignupData {
    pub mail: String,
    pub site: String,
    pub age: u32,
}

impl Validate for SignupData {
    open spec fn violations(&self) -> Seq<ViolationView> {
        (if !is_email(self.mail@) {
            violation("mail"@, Rule::Email, ParamValueView::Text(self.mail@))
        } else {
            Seq::empty()
        }) + (if !is_url(self.site@) {
            violation("site"@, Rule::Url, ParamValueView::Text(self.site@))
        } else {
            Seq::empty()
        }) + (if !(18 <= self.age <= 20) {
            violation("age"@, Rule::Range { min: 18, max: 20 }, ParamValueView::Number(self.age as u64))
        } else {
            Seq::empty()
        })
    }

    fn validate(&self) -> (r: Result<(), ValidationErrors>) {
        let mut found: Vec<Violation> = Vec::new();
        if !check_email(&self.mail) {
            found.push(
                Violation {
                    field: String::from_str("mail"),
                    rule: Rule::Email,
                    value: ParamValue::Text(self.mail.clone()),
                },
            );
        }
        if !check_url(&self.site) {
            found.push(
                Violation {
                    field: String::from_str("site"),
                    rule: Rule::Url,
                    value: ParamValue::Text(self.site.clone()),
                },
            );
        }
        if !in_range(self.age as u64, 18, 20) {
            found.push(
                Violation {
                    field: String::from_str("age"),
                    rule: Rule::Range { min: 18, max: 20 },
                    value: ParamValue::Number(self.age as u64),
                },
            );
        }
        assert(found@.map_values(|v: Violation| v@) =~= self.violations());
        finish_validation(found)
    }
}


/// The rules of a review submission, each judged on its own field: the
/// check reports an `email` violation of `mail` exactly when the mail is
/// not an email address, a `url` violation of `site` exactly when the site
/// is not a URL, and a `range` violation of `age` (18 to 20) exactly when
/// the age is under 18 or over 20, each whatever the other fields hold, and
/// nothing else; so it passes exactly when all three hold.
pub proof fn lemma_signup_rules(d: SignupData)
    ensures
        d.violations().contains(
            ViolationView {
                field: "mail"@,
                rule: Rule::Email,
                value: ParamValueView::Text(d.mail@),
            },
        ) <==> !is_email(d.mail@),
        d.violations().contains(
            ViolationView { field: "site"@, rule: Rule::Url, value: ParamValueView::Text(d.site@) },
        ) <==> !is_url(d.site@),
        d.violations().contains(
            ViolationView {
                field: "age"@,
                rule: Rule::Range { min: 18, max: 20 },
                value: ParamValueView::Number(d.age as u64),
            },
        ) <==> (d.age < 18 || d.age > 20),
        forall|i: int|
            0 <= i < d.violations().len() ==> (#[trigger] d.violations()[i]).field == "mail"@
                || d.violations()[i].field == "site"@ || d.violations()[i].field == "age"@,
        d.violations().len() == 0 <==> (is_email(d.mail@) && is_url(d.site@) && 18 <= d.age
            && d.age <= 20),
{
    reveal_strlit("mail");
    reveal_strlit("site");
    reveal_strlit("age");
    assert("mail"@ != "site"@) by {
        assert("mail"@[0] != "site"@[0]);
    }
    assert("mail"@ != "age"@) by {
        assert("mail"@.len() != "age"@.len());
    }
    assert("site"@ != "age"@) by {
        assert("site"@.len() != "age"@.len());
    }
    let mail_v = ViolationView {
        field: "mail"@,
        rule: Rule::Email,
        value: ParamValueView::Text(d.mail@),
    };
    let site_v = ViolationView {
        field: "site"@,
        rule: Rule::Url,
        value: ParamValueView::Text(d.site@),
    };
    let age_v = ViolationView {
        field: "age"@,
        rule: Rule::Range { min: 18, max: 20 },
        value: ParamValueView::Number(d.age as u64),
    };
    let m: Seq<ViolationView> = if !is_email(d.mail@) {
        seq![mail_v]
    } else {
        Seq::empty()
    };
    let st: Seq<ViolationView> = if !is_url(d.site@) {
        seq![site_v]
    } else {
        Seq::empty()
    };
    let a: Seq<ViolationView> = if !(18 <= d.age <= 20) {
        seq![age_v]
    } else {
        Seq::empty()
    };
    let vs = d.violations();
    assert(vs =~= m + st + a);
    if !is_email(d.mail@) {
        assert(vs[0] == mail_v);
    }
    if !is_url(d.site@) {
        assert(vs[m.len() as int] == site_v);
    }
    if !(18 <= d.age <= 20) {
        assert(vs[vs.len() - 1] == age_v);
    }
    if vs.contains(mail_v) {
        let i: int = choose|i: int| 0 <= i < vs.len() && vs[i] == mail_v;
        assert(vs[i].field == "mail"@);
    }
    if vs.contains(site_v) {
        let i: int = choose|i: int| 0 <= i < vs.len() && vs[i] == site_v;
        assert(vs[i].field == "site"@);
    }
    if vs.contains(age_v) {
        let i: int = choose|i: int| 0 <= i < vs.len() && vs[i] == age_v;
        assert(vs[i].field == "age"@);
    }
}

} // verus!
