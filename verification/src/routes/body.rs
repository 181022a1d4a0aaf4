use vstd::prelude::*;

use crate::validation::{
    finish_validation, in_range, length_at_least, violation, Json, ParamValue, ParamValueView,
    Rule, Validate, ValidationErrors, Validated, Violation, ViolationView,
};

verus! {

/// A greeting posted as a JSON body: a non-empty name and an age of at
/// most 100.
pub struct HelloData {
    pub name: String,
    pub age: u8,
}

impl Validate for HelloData {
    open spec fn violations(&self) -> Seq<ViolationView> {
        (if self.name@.len() < 1 {
            violation("name"@, Rule::Length { min: 1 }, ParamValueView::Text(self.name@))
        } else {
            Seq::empty()
        }) + (if !(0 <= self.age <= 100) {
            violation("age"@, Rule::Range { min: 0, max: 100 }, ParamValueView::Number(self.age as u64))
        } else {
            Seq::empty()
        })
    }

    fn validate(&self) -> (r: Result<(), ValidationErrors>) {
        let mut found: Vec<Violation> = Vec::new();
        if !length_at_least(&self.name, 1) {
            found.push(
                Violation {
                    field: String::from_str("name"),
                    rule: Rule::Length { min: 1 },
                    value: ParamValue::Text(self.name.clone()),
                },
            );
        }
        if !in_range(self.age as u64, 0, 100) {
            found.push(
                Violation {
                    field: String::from_str("age"),
                    rule: Rule::Range { min: 0, max: 100 },
                    value: ParamValue::Number(self.age as u64),
                },
            );
        }
        assert(found@.map_values(|v: Violation| v@) =~= self.violations());
        finish_validation(found)
    }
}

/// Echoes a validated greeting.
pub fn validated_body(data: Validated<Json<HelloData>>) -> (r: Json<HelloData>)
    ensures
        r.0 == data.0.0,
{
    Json(data.into_deep_inner())
}


/// The rules of a body greeting, each judged on its own field: the check
/// reports a `length` violation of `name` (minimum 1) exactly when the name
/// is empty, a `range` violation of `age` (0 to 100) exactly when the age is
/// over 100, whatever the other field holds, and nothing else; so it
/// passes exactly when the name is not empty and the age at most 100.
pub proof fn lemma_body_hello_rules(d: HelloData)
    ensures
        d.violations().contains(
            ViolationView {
                field: "name"@,
                rule: Rule::Length { min: 1 },
                value: ParamValueView::Text(d.name@),
            },
        ) <==> d.name@.len() == 0,
        d.violations().contains(
            ViolationView {
                field: "age"@,
                rule: Rule::Range { min: 0, max: 100 },
                value: ParamValueView::Number(d.age as u64),
            },
        ) <==> d.age > 100,
        forall|i: int|
            0 <= i < d.violations().len() ==> (#[trigger] d.violations()[i]).field == "name"@
                || d.violations()[i].field == "age"@,
        d.violations().len() == 0 <==> (d.name@.len() > 0 && d.age <= 100),
{
    reveal_strlit("name");
    reveal_strlit("age");
    let name_v = ViolationView {
        field: "name"@,
        rule: Rule::Length { min: 1 },
        value: ParamValueView::Text(d.name@),
    };
    let age_v = ViolationView {
        field: "age"@,
        rule: Rule::Range { min: 0, max: 100 },
        value: ParamValueView::Number(d.age as u64),
    };
    let vs = d.violations();
    if d.name@.len() == 0 {
        assert(vs[0] == name_v);
    }
    if d.age > 100 {
        assert(vs[vs.len() - 1] == age_v);
    }
    assert("name"@ != "age"@) by {
        assert("name"@.len() != "age"@.len());
    }
}

} // verus!
