//! Reading answers as an exported assessment workbook writes them: its
//! short identifiers (`P 3.1`) and its numbered form-control selections.
use vstd::prelude::*;

use crate::answer::{
    detailed_optional_value, detailed_value, occurence_value, satisfaction_value, Answer, Detailed,
    DetailedOptional, Occurence, Satisfaction,
};
use crate::cid::{parse_cid, CidKey, CID};
use crate::control::Control;
use crate::error::CmmError;
use crate::text::{replace, replace_all, str_eq};

verus! {

/// The identifier text of a workbook identifier: the one-letter domain
/// prefixes are spelled out and the section suffixes dropped.
pub open spec fn workbook_id_text(s: Seq<char>) -> Seq<char> {
    let a = replace_all(s, "P "@, "People."@);
    let b = replace_all(a, "M "@, "Process."@);
    let c = replace_all(b, "B "@, "Business."@);
    let d = replace_all(c, "T "@, "Technology."@);
    let e = replace_all(d, "S "@, "Services."@);
    let f = replace_all(e, " - Scope"@, ""@);
    let g = replace_all(f, " - Security incident Management"@, ""@);
    replace_all(g, " - Security Analysis"@, ""@)
}

/// Reads a workbook identifier such as `P 3.1` or `S 2 - Scope`.
pub fn to_cid(s: &str) -> (r: Result<CID, CmmError>)
    ensures
        r == parse_cid(workbook_id_text(s@)),
{
    proof {
        reveal_strlit("P ");
        reveal_strlit("M ");
        reveal_strlit("B ");
        reveal_strlit("T ");
        reveal_strlit("S ");
        reveal_strlit(" - Scope");
        reveal_strlit(" - Security incident Management");
        reveal_strlit(" - Security Analysis");
    }
    let a = replace(s, "P ", "People.");
    let b = replace(a.as_str(), "M ", "Process.");
    let c = replace(b.as_str(), "B ", "Business.");
    let d = replace(c.as_str(), "T ", "Technology.");
    let e = replace(d.as_str(), "S ", "Services.");
    let f = replace(e.as_str(), " - Scope", "");
    let g = replace(f.as_str(), " - Security incident Management", "");
    let h = replace(g.as_str(), " - Security Analysis", "");
    CID::parse(h.as_str())
}

/// The input ranges a form control can be linked to, with the kind of
/// scale each one selects from and the column type it requires (`C` for
/// capability, `M` for maturity, none for yes/no).
pub open spec fn input_range_type(input: Seq<char>) -> Option<Seq<char>> {
    if input == "_Input!$C$13:$C$18"@ {
        Some("C"@)
    } else if input == "_Input!$C$13:$C$17"@ || input == "_Input!$C$39:$C$43"@ || input
        == "_Input!$C$45:$C$49"@ {
        Some("M"@)
    } else if input == "_Input!$C$3:$C$4"@ {
        Some(Seq::<char>::empty())
    } else {
        None
    }
}

/// The linked input range is known and, unless it is the yes/no range, the
/// column type is the one it requires.
pub open spec fn input_accepted(input: Seq<char>, kind: Seq<char>) -> bool {
    match input_range_type(input) {
        None => false,
        Some(t) => t.len() == 0 || t == kind,
    }
}

/// The answer that selection `value` of a form control linked to `input`
/// stands for; a value outside the scale gives its lowest level.
pub open spec fn input_answer(input: Seq<char>, value: usize) -> Answer {
    if input == "_Input!$C$13:$C$18"@ {
        Answer::DetailedOptional(
            if 1 <= value <= 6 {
                choose|v: DetailedOptional| detailed_optional_value(v) == value
            } else {
                DetailedOptional::No
            },
        )
    } else if input == "_Input!$C$13:$C$17"@ {
        Answer::Detailed(
            if 1 <= value <= 5 {
                choose|v: Detailed| detailed_value(v) == value
            } else {
                Detailed::No
            },
        )
    } else if input == "_Input!$C$3:$C$4"@ {
        Answer::Bool(value > 1)
    } else if input == "_Input!$C$39:$C$43"@ {
        Answer::Occurence(
            if 1 <= value <= 5 {
                choose|v: Occurence| occurence_value(v) == value
            } else {
                Occurence::Never
            },
        )
    } else {
        Answer::Satisfaction(
            if 1 <= value <= 5 {
                choose|v: Satisfaction| satisfaction_value(v) == value
            } else {
                Satisfaction::No
            },
        )
    }
}

/// Reads selection `value` of a form control linked to the input range
/// `input`, in a column of type `kind`.
pub fn input_map(input: &str, value: usize, kind: &str) -> (r: Answer)
    requires
        input_accepted(input@, kind@),
    ensures
        r == input_answer(input@, value),
{
    proof {
        reveal_strlit("_Input!$C$13:$C$18");
        reveal_strlit("_Input!$C$13:$C$17");
        reveal_strlit("_Input!$C$3:$C$4");
        reveal_strlit("_Input!$C$39:$C$43");
        reveal_strlit("_Input!$C$45:$C$49");
    }
    if str_eq(input, "_Input!$C$13:$C$18") {
        Answer::DetailedOptional(
            match DetailedOptional::from_repr(value) {
                Some(v) => v,
                None => DetailedOptional::No,
            },
        )
    } else if str_eq(input, "_Input!$C$13:$C$17") {
        Answer::Detailed(
            match Detailed::from_repr(value) {
                Some(v) => v,
                None => Detailed::No,
            },
        )
    } else if str_eq(input, "_Input!$C$3:$C$4") {
        Answer::Bool(value > 1)
    } else if str_eq(input, "_Input!$C$39:$C$43") {
        Answer::Occurence(
            match Occurence::from_repr(value) {
                Some(v) => v,
                None => Occurence::Never,
            },
        )
    } else {
        Answer::Satisfaction(
            match Satisfaction::from_repr(value) {
                Some(v) => v,
                None => Satisfaction::No,
            },
        )
    }
}

/// Capability controls kept only for compatibility with the NIST mapping.
pub open spec fn compat_capability(k: CidKey) -> bool {
    k == (4u8, 4u8, 15u8, 30u8, 0u8) || k == (4u8, 4u8, 15u8, 31u8, 0u8) || k == (4u8, 2u8, 17u8, 33u8, 0u8)
        || k == (4u8, 2u8, 17u8, 34u8, 0u8) || k == (4u8, 2u8, 17u8, 35u8, 0u8) || k == (4u8, 2u8, 17u8, 36u8, 0u8)
        || k == (4u8, 6u8, 15u8, 20u8, 0u8)
}

/// Maturity controls kept only for compatibility with the NIST mapping.
pub open spec fn compat_maturity(k: CidKey) -> bool {
    k == (2u8, 2u8, 2u8, 5u8, 0u8) || k == (2u8, 2u8, 4u8, 5u8, 0u8) || k == (2u8, 2u8, 4u8, 9u8, 0u8)
        || k == (2u8, 3u8, 11u8, 1u8, 0u8) || k == (2u8, 3u8, 11u8, 2u8, 0u8) || k == (2u8, 3u8, 11u8, 3u8, 0u8)
        || k == (0u8, 4u8, 6u8, 0u8, 0u8)
}

/// The free-text control the workbook fills from the NIST mapping.
pub open spec fn compat_text(k: CidKey) -> bool {
    k == (1u8, 2u8, 2u8, 14u8, 0u8)
}

/// `a` is the answer a compatibility control with key `k` is reset to: the
/// lowest capability or maturity level, or empty text.
pub open spec fn compat_answer_fits(k: CidKey, a: Answer) -> bool {
    if compat_capability(k) {
        a == Answer::DetailedOptional(DetailedOptional::No)
    } else if compat_maturity(k) {
        a == Answer::Detailed(Detailed::No)
    } else if compat_text(k) {
        a is Any && a->Any_0@.len() == 0
    } else {
        false
    }
}

/// The answer a compatibility control is reset to, if `k` is one.
fn compat_answer(k: CidKey) -> (r: Option<Answer>)
    ensures
        r is Some <==> (compat_capability(k) || compat_maturity(k) || compat_text(k)),
        r is Some ==> compat_answer_fits(k, r->Some_0),
{
    let services = k.0 == 4 && k.4 == 0 && ((k.1 == 4 && k.2 == 15 && (k.3 == 30 || k.3 == 31)) || (
    k.1 == 2 && k.2 == 17 && 33 <= k.3 && k.3 <= 36) || (k.1 == 6 && k.2 == 15 && k.3 == 20));
    let process = k.0 == 2 && k.4 == 0 && ((k.1 == 2 && ((k.2 == 2 && k.3 == 5) || (k.2 == 4 && (k.3
        == 5 || k.3 == 9)))) || (k.1 == 3 && k.2 == 11 && 1 <= k.3 && k.3 <= 3));
    let business = k.0 == 0 && k.1 == 4 && k.2 == 6 && k.3 == 0 && k.4 == 0;
    let people = k.0 == 1 && k.1 == 2 && k.2 == 2 && k.3 == 14 && k.4 == 0;
    if services {
        Some(Answer::DetailedOptional(DetailedOptional::No))
    } else if process || business {
        Some(Answer::Detailed(Detailed::No))
    } else if people {
        Some(Answer::Any(String::new()))
    } else {
        None
    }
}

/// Resets the answers of the controls kept only for compatibility with the
/// NIST mapping, keeping their comments and pinned flags; every other
/// control is left as it is. Their exclusion from scoring comes from the
/// scheme's compatibility flag.
pub fn nist_compat(controls: &mut Vec<(CID, Control)>)
    ensures
        final(controls)@.len() == old(controls)@.len(),
        forall|i: int|
            0 <= i < old(controls)@.len() ==> {
                let (c, old_c) = old(controls)@[i];
                let k = c.spec_key();
                &&& (#[trigger] final(controls)@[i]).0 == c
                &&& if compat_capability(k) || compat_maturity(k) || compat_text(k) {
                    compat_answer_fits(k, final(controls)@[i].1.spec_answer())
                        && final(controls)@[i].1.spec_comment() == old_c.spec_comment()
                        && final(controls)@[i].1.spec_bookmark() == old_c.spec_bookmark()
                } else {
                    final(controls)@[i].1 == old_c
                }
            },
{
    let ghost start = controls@;
    let n = controls.len();
    let mut i: usize = 0;
    while i < n
        invariant
            n == start.len(),
            controls@.len() == n,
            i <= n,
            forall|j: int|
                i <= j < n ==> #[trigger] controls@[j] == start[j],
            forall|j: int|
                0 <= j < i ==> {
                    let (c, old_c) = start[j];
                    let k = c.spec_key();
                    &&& (#[trigger] controls@[j]).0 == c
                    &&& if compat_capability(k) || compat_maturity(k) || compat_text(k) {
                        compat_answer_fits(k, controls@[j].1.spec_answer())
                            && controls@[j].1.spec_comment() == old_c.spec_comment()
                            && controls@[j].1.spec_bookmark() == old_c.spec_bookmark()
                    } else {
                        controls@[j].1 == old_c
                    }
                },
        decreases n - i,
    {
        let cid = controls[i].0;
        match compat_answer(cid.key()) {
            Some(answer) => {
                let comment = match controls[i].1.comment() {
                    Some(t) => Some(t.clone()),
                    None => None,
                };
                let mut c = Control::new(answer, comment);
                if controls[i].1.bookmark() {
                    c.toggle_bookmark();
                }
                controls.set(i, (cid, c));
            },
            None => {},
        }
        i = i + 1;
    }
}

} // verus!
