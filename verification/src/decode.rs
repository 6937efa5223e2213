//! Decoding an incoming text frame into a command, with the validation
//! and defaulting rules stated as a function of the parsed JSON tree.

use vstd::prelude::*;
use crate::command::{
    default_footnote, default_footnote_spec, CashierCommand, CommandView, PaymentKind,
};
use crate::json::{
    json_of, json_parse, parse_json, value_as_array, value_as_i64, value_as_str, value_get,
    value_is_object, JsonModel,
};

verus! {

/// Why an incoming text frame was rejected.
#[derive(Clone, Copy, PartialEq, Eq, Structural, Debug)]
pub enum DecodeError {
    /// The text is not well-formed JSON.
    Malformed,
    /// The payload is well-formed JSON but not an object.
    NotAnObject,
    /// The `total_price` key is missing.
    MissingTotalPrice,
    /// `total_price` is not an integer the register's total can hold.
    TotalPriceNotInteger,
    /// The `payment_kind` key is missing.
    MissingPaymentKind,
    /// `payment_kind` is not one of the two recognized literals.
    UnknownPaymentKind,
    /// `footnote` is present but is not an array of strings.
    FootnoteNotTextLines,
}

/// The two accepted `payment_kind` spellings.
pub open spec fn is_payment_literal(s: Seq<char>) -> bool {
    s == "Cash"@ || s == "Card"@
}

/// The payment kind a literal spells.
pub open spec fn payment_kind_of(s: Seq<char>) -> PaymentKind
    recommends
        is_payment_literal(s),
{
    if s == "Cash"@ {
        PaymentKind::Cash
    } else {
        PaymentKind::Card
    }
}

/// The lines of a JSON array, when every element is a string; nothing
/// otherwise.
pub open spec fn lines_of(items: Seq<JsonModel>) -> Option<Seq<Seq<char>>>
    decreases items.len(),
{
    if items.len() == 0 {
        Some(Seq::empty())
    } else {
        match (lines_of(items.drop_last()), items.last()) {
            (Some(init), JsonModel::Text { s }) => Some(init.push(s)),
            _ => None,
        }
    }
}

/// What decoding a text frame yields, as a function of its parsed JSON
/// tree: the checks in order, and the default footer when the key is
/// absent.
pub open spec fn decode_model(m: Option<JsonModel>) -> Result<CommandView, DecodeError> {
    match m {
        None => Err(DecodeError::Malformed),
        Some(j) => if !(j is Obj) {
            Err(DecodeError::NotAnObject)
        } else {
            let entries = j->entries;
            if !entries.dom().contains("total_price"@) {
                Err(DecodeError::MissingTotalPrice)
            } else if !(entries["total_price"@] matches JsonModel::Int { i } && i32::MIN <= i
                <= i32::MAX) {
                Err(DecodeError::TotalPriceNotInteger)
            } else if !entries.dom().contains("payment_kind"@) {
                Err(DecodeError::MissingPaymentKind)
            } else if !(entries["payment_kind"@] matches JsonModel::Text { s }
                && is_payment_literal(s)) {
                Err(DecodeError::UnknownPaymentKind)
            } else {
                let footnote = if !entries.dom().contains("footnote"@) {
                    Some(default_footnote_spec())
                } else {
                    match entries["footnote"@] {
                        JsonModel::Arr { items } => lines_of(items),
                        _ => None,
                    }
                };
                match footnote {
                    None => Err(DecodeError::FootnoteNotTextLines),
                    Some(lines) => Ok(
                        CommandView {
                            footnote: lines,
                            total_price: entries["total_price"@]->i,
                            payment_kind: payment_kind_of(entries["payment_kind"@]->s),
                        },
                    ),
                }
            }
        },
    }
}

/// Character-for-character equality of two string slices.
pub(crate) fn str_eq(a: &str, b: &str) -> (r: bool)
    ensures
        r == (a@ == b@),
{
    let sa = a.to_owned();
    let sb = b.to_owned();
    sa == sb
}

/// An array with a non-string element never yields lines.
proof fn lemma_lines_of_none(items: Seq<JsonModel>, i: int)
    requires
        0 <= i < items.len(),
        !(items[i] is Text),
    ensures
        lines_of(items) is None,
    decreases items.len(),
{
    if i == items.len() - 1 {
        assert(items.last() == items[i]);
    } else {
        assert(items.drop_last()[i] == items[i]);
        lemma_lines_of_none(items.drop_last(), i);
    }
}

/// When an array yields lines, there is one line per element.
pub proof fn lemma_lines_of_len(items: Seq<JsonModel>)
    requires
        lines_of(items) is Some,
    ensures
        lines_of(items) matches Some(lines) && lines.len() == items.len(),
    decreases items.len(),
{
    if items.len() > 0 {
        lemma_lines_of_len(items.drop_last());
    }
}

/// Every valid input decodes: a JSON object whose `total_price` is an
/// in-range integer and whose `payment_kind` spells one of the two known
/// literals decodes successfully when `footnote` is absent or an array
/// of strings. An absent `footnote` becomes the default four-line
/// footer, so the decoded footer is then never empty; a supplied
/// non-empty array keeps its length.
pub proof fn lemma_valid_input_decodes(m: JsonModel)
    requires
        m is Obj,
        m->entries.dom().contains("total_price"@),
        m->entries["total_price"@] matches JsonModel::Int { i } && i32::MIN <= i <= i32::MAX,
        m->entries.dom().contains("payment_kind"@),
        m->entries["payment_kind"@] matches JsonModel::Text { s } && is_payment_literal(s),
        m->entries.dom().contains("footnote"@) ==> (m->entries["footnote"@] matches JsonModel::Arr {
            items,
        } && lines_of(items) is Some),
    ensures
        decode_model(Some(m)) is Ok,
        decode_model(Some(m)) matches Ok(c) ==> {
            &&& !m->entries.dom().contains("footnote"@) ==> c.footnote
                == default_footnote_spec() && c.footnote.len() == 4
            &&& m->entries.dom().contains("footnote"@) ==> (m->entries["footnote"@] matches JsonModel::Arr {
                items,
            } ==> c.footnote.len() == items.len())
        },
{
    if m->entries.dom().contains("footnote"@) {
        match m->entries["footnote"@] {
            JsonModel::Arr { items } => {
                lemma_lines_of_len(items);
            },
            _ => {},
        }
    }
}

/// An unknown `payment_kind` is always rejected: when the key holds
/// anything but one of the two known literal strings, no input decodes,
/// whatever the other fields hold.
pub proof fn lemma_unknown_payment_kind_rejected(m: JsonModel)
    requires
        m is Obj,
        m->entries.dom().contains("payment_kind"@),
        !(m->entries["payment_kind"@] matches JsonModel::Text { s } && is_payment_literal(s)),
    ensures
        decode_model(Some(m)) is Err,
{
}

/// Decodes one incoming text frame. Succeeds exactly when the text is a
/// well-formed JSON object with an in-range integer `total_price`, a
/// known `payment_kind` literal, and a `footnote` that is absent or an
/// array of strings; the result and each error are pinned by
/// `decode_model` over the parsed tree.
#[verifier::loop_isolation(false)]
pub fn decode(raw: &str) -> (r: Result<CashierCommand, DecodeError>)
    ensures
        match r {
            Ok(c) => decode_model(json_parse(raw@)) == Ok::<CommandView, DecodeError>(c@),
            Err(e) => decode_model(json_parse(raw@)) == Err::<CommandView, DecodeError>(e),
        },
{
    let v = match parse_json(raw) {
        Ok(v) => v,
        Err(_) => {
            return Err(DecodeError::Malformed);
        },
    };
    if !value_is_object(&v) {
        return Err(DecodeError::NotAnObject);
    }
    let ghost entries = json_of(v)->entries;
    let total: i64 = match value_get(&v, "total_price") {
        None => {
            return Err(DecodeError::MissingTotalPrice);
        },
        Some(tv) => match value_as_i64(tv) {
            None => {
                return Err(DecodeError::TotalPriceNotInteger);
            },
            Some(n) => n,
        },
    };
    if total < i32::MIN as i64 || total > i32::MAX as i64 {
        return Err(DecodeError::TotalPriceNotInteger);
    }
    let kind: PaymentKind = match value_get(&v, "payment_kind") {
        None => {
            return Err(DecodeError::MissingPaymentKind);
        },
        Some(kv) => match value_as_str(kv) {
            None => {
                return Err(DecodeError::UnknownPaymentKind);
            },
            Some(s) => {
                if str_eq(s, "Cash") {
                    PaymentKind::Cash
                } else if str_eq(s, "Card") {
                    PaymentKind::Card
                } else {
                    return Err(DecodeError::UnknownPaymentKind);
                }
            },
        },
    };
    let footnote: Vec<String> = match value_get(&v, "footnote") {
        None => default_footnote(),
        Some(fv) => match value_as_array(fv) {
            None => {
                return Err(DecodeError::FootnoteNotTextLines);
            },
            Some(arr) => {
                let ghost items = json_of(*fv)->items;
                let mut lines: Vec<String> = Vec::new();
                let mut i: usize = 0;
                while i < arr.len()
                    invariant
                        i <= arr.len(),
                        items.len() == arr@.len(),
                        forall|k: int| 0 <= k < arr@.len() ==> items[k] == json_of(#[trigger] arr@[k]),
                        lines_of(items.take(i as int)) == Some(lines.deep_view()),
                    decreases arr.len() - i,
                {
                    match value_as_str(&arr[i]) {
                        None => {
                            proof {
                                lemma_lines_of_none(items, i as int);
                            }
                            return Err(DecodeError::FootnoteNotTextLines);
                        },
                        Some(s) => {
                            let ghost prev = lines.deep_view();
                            lines.push(s.to_owned());
                            proof {
                                assert(lines.deep_view() =~= prev.push(s@));
                                assert(items.take(i + 1 as int).drop_last() =~= items.take(
                                    i as int,
                                ));
                                assert(items.take(i + 1 as int).last() == items[i as int]);
                            }
                        },
                    }
                    i = i + 1;
                }
                proof {
                    assert(items.take(items.len() as int) =~= items);
                }
                lines
            },
        },
    };
    Ok(CashierCommand { footnote, total_price: total as i32, payment_kind: kind })
}

} // verus!
