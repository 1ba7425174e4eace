//! Fixed filters: the built-in input token check, the built-in output
//! sensitive-data check, the prompt-injection phrase check, and ad hoc
//! filter lists run outside the cached engine.

use vstd::prelude::*;

use crate::matcher::{compiles_ok, find_of, regex_find, regex_new};
use crate::rules::{RuleModel, ValidationError};
use crate::text::{append_str, is_substring, str_contains};

verus! {

/// The disallowed tokens checked on the input side.
pub open spec fn disallowed_tokens() -> Seq<Seq<char>> {
    seq!["DROP TABLE"@, "DELETE"@, "UNION SELECT"@]
}

/// Rejects an input that holds any disallowed token, with the fixed
/// message; accepts everything else.
pub fn validate_input(input: &str) -> (r: Result<(), ValidationError>)
    ensures
        r is Err <==> exists|i: int|
            0 <= i < disallowed_tokens().len() && is_substring(
                #[trigger] disallowed_tokens()[i],
                input@,
            ),
        r matches Err(e) ==> e.message@ == "Disallowed token found."@,
{
    let hit = str_contains(input, "DROP TABLE") || str_contains(input, "DELETE") || str_contains(
        input,
        "UNION SELECT",
    );
    proof {
        let toks = disallowed_tokens();
        assert(toks[0] == "DROP TABLE"@);
        assert(toks[1] == "DELETE"@);
        assert(toks[2] == "UNION SELECT"@);
    }
    if hit {
        Err(ValidationError { message: "Disallowed token found.".to_owned() })
    } else {
        Ok(())
    }
}

/// The sensitive-data patterns checked on the output side: a run of sixteen
/// digits (card-number shaped) and the digit shape of a social security
/// number.
pub open spec fn sensitive_patterns() -> Seq<Seq<char>> {
    seq![r"\d{16}"@, r"\d{3}-\d{2}-\d{4}"@]
}

/// Rejects an output in which any sensitive-data pattern matches, with the
/// fixed message. A pattern the regex engine refuses is skipped: one bad
/// pattern degrades coverage, never availability.
pub fn validate_output(output: &str) -> (r: Result<(), ValidationError>)
    ensures
        r is Err <==> exists|i: int|
            0 <= i < sensitive_patterns().len() && compiles_ok(#[trigger] sensitive_patterns()[i])
                && find_of(sensitive_patterns()[i], output@) is Some,
        r matches Err(e) ==> e.message@ == "Sensitive Data Found."@,
{
    let mut hit = false;
    match regex_new(r"\d{16}") {
        Ok(re) => {
            if regex_find(&re, output).is_some() {
                hit = true;
            }
        },
        Err(_) => {},
    }
    match regex_new(r"\d{3}-\d{2}-\d{4}") {
        Ok(re) => {
            if regex_find(&re, output).is_some() {
                hit = true;
            }
        },
        Err(_) => {},
    }
    proof {
        let pats = sensitive_patterns();
        assert(pats[0] == r"\d{16}"@);
        assert(pats[1] == r"\d{3}-\d{2}-\d{4}"@);
    }
    if hit {
        Err(ValidationError { message: "Sensitive Data Found.".to_owned() })
    } else {
        Ok(())
    }
}

/// The fixed phrases whose presence marks an attempted prompt injection.
pub open spec fn injection_phrases() -> Seq<Seq<char>> {
    seq![
        "ignore previous instructions"@,
        "pretend you are"@,
        "please execute"@,
        "run this code"@,
        "system: "@,
    ]
}

/// True iff any known prompt-injection phrase occurs in the text.
pub fn detect_prompt_injection(text: &str) -> (r: bool)
    ensures
        r <==> exists|i: int|
            0 <= i < injection_phrases().len() && is_substring(
                #[trigger] injection_phrases()[i],
                text@,
            ),
{
    let hit = str_contains(text, "ignore previous instructions") || str_contains(
        text,
        "pretend you are",
    ) || str_contains(text, "please execute") || str_contains(text, "run this code")
        || str_contains(text, "system: ");
    proof {
        let ph = injection_phrases();
        assert(ph[0] == "ignore previous instructions"@);
        assert(ph[1] == "pretend you are"@);
        assert(ph[2] == "please execute"@);
        assert(ph[3] == "run this code"@);
        assert(ph[4] == "system: "@);
    }
    hit
}

/// An ad hoc filter, run against a payload without going through the cache.
#[derive(Debug)]
pub struct InputFilter {
    pub name: String,
    pub pattern: String,
    pub description: String,
}

impl InputFilter {
    pub open spec fn model(self) -> RuleModel {
        RuleModel { name: self.name@, pattern: self.pattern@, description: self.description@ }
    }
}

impl Clone for InputFilter {
    fn clone(&self) -> (r: Self)
        ensures
            r.model() == self.model(),
    {
        InputFilter {
            name: self.name.clone(),
            pattern: self.pattern.clone(),
            description: self.description.clone(),
        }
    }
}

pub open spec fn filter_models(s: Seq<InputFilter>) -> Seq<RuleModel> {
    s.map_values(|f: InputFilter| f.model())
}

/// The report one triggered filter contributes.
pub open spec fn trigger_message(f: RuleModel) -> Seq<char> {
    f.name + " triggered: "@ + f.description
}

/// The reports of the first `n` filters that compile and match, in filter
/// order.
pub open spec fn messages_of(filters: Seq<RuleModel>, input: Seq<char>, n: int) -> Seq<Seq<char>>
    decreases n,
{
    if n <= 0 {
        Seq::empty()
    } else {
        messages_of(filters, input, n - 1) + if compiles_ok(filters[n - 1].pattern) && find_of(
            filters[n - 1].pattern,
            input,
        ) is Some {
            seq![trigger_message(filters[n - 1])]
        } else {
            Seq::empty()
        }
    }
}

/// Runs every filter against the input and reports each one that matched,
/// in filter order. A filter whose pattern does not compile is skipped:
/// it degrades coverage, never availability.
pub fn validate_input_concurrently(input: &str, filters: Vec<InputFilter>) -> (r: Vec<String>)
    ensures
        r@.map_values(|s: String| s@) == messages_of(
            filter_models(filters@),
            input@,
            filters@.len() as int,
        ),
{
    let ghost fm = filter_models(filters@);
    let mut out: Vec<String> = Vec::new();
    let mut i: usize = 0;
    proof {
        assert(out@.map_values(|s: String| s@) =~= messages_of(fm, input@, 0));
    }
    while i < filters.len()
        invariant
            fm == filter_models(filters@),
            0 <= i <= filters@.len(),
            out@.map_values(|s: String| s@) == messages_of(fm, input@, i as int),
        decreases filters@.len() - i,
    {
        let f = &filters[i];
        proof {
            assert(fm[i as int] == f.model());
        }
        let mut matched = false;
        match regex_new(f.pattern.as_str()) {
            Ok(re) => {
                if regex_find(&re, input).is_some() {
                    matched = true;
                }
            },
            Err(_) => {},
        }
        if matched {
            let mut msg = f.name.clone();
            append_str(&mut msg, " triggered: ");
            append_str(&mut msg, f.description.as_str());
            proof {
                assert(msg@ == trigger_message(fm[i as int]));
            }
            out.push(msg);
            proof {
                assert(out@.map_values(|s: String| s@) =~= messages_of(fm, input@, i + 1));
            }
        } else {
            proof {
                assert(messages_of(fm, input@, i + 1) =~= messages_of(fm, input@, i as int));
            }
        }
        i += 1;
    }
    out
}

} // verus!
