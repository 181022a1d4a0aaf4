use vstd::prelude::*;

use crate::validation::{
    finish_validation, in_range, length_at_least, violation, Json, ParamValue, ParamValueView,
    Rule, Validate, ValidationErrors, Validated, Violation, ViolationView,
};

verus! {

/// A colour picked in the query string.
#[derive(Clone, Copy, Debug, PartialEq, Eq, Structural)]
pub enum Color {
    Red,
    Blue,
    Green,
}

/// A greeting given in the query string: a name of at least three
/// characters, an optional age of at most 100, and a colour.
pub struct HelloData {
    pub name: String,
    pub age: Option<u8>,
    pub color: Color,
}

impl Validate for HelloData {
    open spec fn violations(&self) -> Seq<ViolationView> {
        (if self.name@.len() < 3 {
            violation("name"@, Rule::Length { min: 3 }, ParamValueView::Text(self.name@))
        } else {
            Seq::empty()
        }) + (match self.age {
            Some(a) => if !(0 <= a <= 100) {
                violation("age"@, Rule::Range { min: 0, max: 100 }, ParamValueView::Number(a as u64))
            } else {
                Seq::empty()
            },
            None => Seq::empty(),
        })
    }

    fn validate(&self) -> (r: Result<(), ValidationErrors>) {
        let mut found: Vec<Violation> = Vec::new();
        if !length_at_least(&self.name, 3) {
            found.push(
                Violation {
                    field: String::from_str("name"),
                    rule: Rule::Length { min: 3 },
                    value: ParamValue::Text(self.name.clone()),
                },
            );
        }
        match self.age {
            Some(a) => {
                if !in_range(a as u64, 0, 100) {
                    found.push(
                        Violation {
                            field: String::from_str("age"),
                            rule: Rule::Range { min: 0, max: 100 },
                            value: ParamValue::Number(a as u64),
                        },
                    );
                }
            },
            None => {},
        }
        assert(found@.map_values(|v: Violation| v@) =~= self.violations());
        finish_validation(found)
    }
}

/// Echoes the query parameters, unchecked.
pub fn query(name: String, age: Option<u8>, color: Color) -> (r: Json<HelloData>)
    ensures
        r.0.name@ == name@,
        r.0.age == age,
        r.0.color == color,
{
    Json(HelloData { name, age, color })
}

/// Echoes the query parameters once they passed their checks.
pub fn validated_query(params: Validated<HelloData>) -> (r: Json<HelloData>)
    ensures
        r.0 == params.0,
{
    Json(params.into_inner())
}


/// The rules of a query greeting, each judged on its own field: the check
/// reports a `length` violation of `name` (minimum 3) exactly when the name
/// has fewer than three characters, a `range` violation of `age` (0 to
/// 100) exactly when an age is given and is over 100, whatever the other
/// fields hold, and nothing else; so it passes exactly when the name has at
/// least three characters and any given age is at most 100.
pub proof fn lemma_query_hello_rules(d: HelloData)
    ensures
        d.violations().contains(
            ViolationView {
                field: "name"@,
                rule: Rule::Length { min: 3 },
                value: ParamValueView::Text(d.name@),
            },
        ) <==> d.name@.len() < 3,
        forall|a: u8|
            d.violations().contains(
                ViolationView {
                    field: "age"@,
                    rule: Rule::Range { min: 0, max: 100 },
                    value: ParamValueView::Number(a as u64),
                },
            ) <==> (d.age == Some(a) && a > 100),
        forall|i: int|
            0 <= i < d.violations().len() ==> (#[trigger] d.violations()[i]).field == "name"@
                || d.violations()[i].field == "age"@,
        d.violations().len() == 0 <==> (d.name@.len() >= 3 && (d.age matches Some(a) ==> a <= 100)),
{
    reveal_strlit("name");
    reveal_strlit("age");
    assert("name"@ != "age"@) by {
        assert("name"@.len() != "age"@.len());
    }
    let name_v = ViolationView {
        field: "name"@,
        rule: Rule::Length { min: 3 },
        value: ParamValueView::Text(d.name@),
    };
    let vs = d.violations();
    if d.name@.len() < 3 {
        assert(vs[0] == name_v);
    }
    assert forall|a: u8|
        vs.contains(
            ViolationView {
                field: "age"@,
                rule: Rule::Range { min: 0, max: 100 },
                value: ParamValueView::Number(a as u64),
            },
        ) <==> (d.age == Some(a) && a > 100) by {
        let age_v = ViolationView {
            field: "age"@,
            rule: Rule::Range { min: 0, max: 100 },
            value: ParamValueView::Number(a as u64),
        };
        if d.age == Some(a) && a > 100 {
            assert(vs[vs.len() - 1] == age_v);
        }
        if vs.contains(age_v) {
            let i: int = choose|i: int| 0 <= i < vs.len() && vs[i] == age_v;
            assert(vs[i].field == "age"@);
        }
    }
}

} // verus!
