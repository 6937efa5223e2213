//! The command data model: one requested fiscal transaction.

use vstd::prelude::*;

verus! {

/// How the customer pays. Only these two kinds exist; any other textual
/// value in an incoming message is a decode failure.
#[derive(Clone, Copy, PartialEq, Eq, Structural, Debug)]
pub enum PaymentKind {
    Cash,
    Card,
}

/// The one-character code the register protocol uses for a payment kind.
pub open spec fn payment_code(k: PaymentKind) -> Seq<char> {
    match k {
        PaymentKind::Cash => "P"@,
        PaymentKind::Card => "N"@,
    }
}

impl PaymentKind {
    /// The one-character protocol code: `Cash` prints as `P`, `Card` as `N`.
    pub fn to_code_str(&self) -> (r: &'static str)
        ensures
            r@ == payment_code(*self),
    {
        match self {
            PaymentKind::Cash => "P",
            PaymentKind::Card => "N",
        }
    }
}

/// The four receipt footer lines used when an incoming command carries no
/// `footnote` field: a thank-you message, a separator marker, a URL and a
/// closing phrase, printed in this order.
pub open spec fn default_footnote_spec() -> Seq<Seq<char>> {
    seq![
        "Köszönjük, hogy nálunk vásárolt!"@,
        "*"@,
        "www.gardenzilla.hu"@,
        "Eszelős favágó"@,
    ]
}

/// Builds the default four-line receipt footer.
pub fn default_footnote() -> (r: Vec<String>)
    ensures
        r.deep_view() == default_footnote_spec(),
{
    let mut v: Vec<String> = Vec::new();
    v.push("Köszönjük, hogy nálunk vásárolt!".to_owned());
    v.push("*".to_owned());
    v.push("www.gardenzilla.hu".to_owned());
    v.push("Eszelős favágó".to_owned());
    proof {
        assert(v.deep_view() =~= default_footnote_spec());
    }
    v
}

/// Mathematical model of a command: footer lines as character sequences,
/// the total as an unbounded integer, and the payment kind.
pub ghost struct CommandView {
    pub footnote: Seq<Seq<char>>,
    pub total_price: int,
    pub payment_kind: PaymentKind,
}

/// One sale transaction as decoded from a client message: the receipt
/// footer lines, the transaction total in the register's smallest
/// currency unit, and the payment kind.
#[derive(PartialEq, Eq, Debug)]
pub struct CashierCommand {
    pub footnote: Vec<String>,
    pub total_price: i32,
    pub payment_kind: PaymentKind,
}

impl View for CashierCommand {
    type V = CommandView;

    open spec fn view(&self) -> CommandView {
        CommandView {
            footnote: self.footnote.deep_view(),
            total_price: self.total_price as int,
            payment_kind: self.payment_kind,
        }
    }
}

} // verus!
