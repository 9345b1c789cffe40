//! The text of a relayed line.
//!
//! A line that peer `n` sent goes out to the others as `client<n>> <text>`
//! and a line feed, with `n` in decimal.

use crate::peer::PeerId;
use vstd::prelude::*;
use vstd::string::StringExecFns;

verus! {

/// The character for one decimal digit.
pub open spec fn digit(d: nat) -> char {
    if d == 0 {
        '0'
    } else if d == 1 {
        '1'
    } else if d == 2 {
        '2'
    } else if d == 3 {
        '3'
    } else if d == 4 {
        '4'
    } else if d == 5 {
        '5'
    } else if d == 6 {
        '6'
    } else if d == 7 {
        '7'
    } else if d == 8 {
        '8'
    } else {
        '9'
    }
}

/// A number in decimal, without leading zeros.
pub open spec fn decimal(n: nat) -> Seq<char>
    decreases n,
{
    if n < 10 {
        seq![digit(n)]
    } else {
        decimal(n / 10).push(digit(n % 10))
    }
}

/// The name under which a peer's lines are relayed.
pub open spec fn label(id: PeerId) -> Seq<char> {
    seq!['c', 'l', 'i', 'e', 'n', 't'] + decimal(id.0 as nat)
}

/// The line that the other peers get when `from` has sent `text`.
pub open spec fn line_of(from: PeerId, text: Seq<char>) -> Seq<char> {
    label(from) + seq!['>', ' '] + text + seq!['\n']
}

proof fn lemma_decimal_shape(n: nat)
    ensures
        decimal(n).len() >= 1,
        n >= 10 ==> decimal(n).len() >= 2 && decimal(n).last() == digit(n % 10) && decimal(
            n,
        ).drop_last() == decimal(n / 10),
    decreases n,
{
    if n >= 10 {
        lemma_decimal_shape(n / 10);
        assert(decimal(n).drop_last() =~= decimal(n / 10));
    }
}

/// Two numbers that are written alike are the same number.
pub proof fn lemma_decimal_is_unique(a: nat, b: nat)
    requires
        decimal(a) == decimal(b),
    ensures
        a == b,
    decreases a,
{
    lemma_decimal_shape(a);
    lemma_decimal_shape(b);
    if a >= 10 && b >= 10 {
        assert(decimal(a).drop_last() == decimal(b).drop_last());
        lemma_decimal_is_unique(a / 10, b / 10);
        assert(digit(a % 10) == digit(b % 10));
        assert(a % 10 == b % 10);
    } else if a < 10 && b < 10 {
        assert(decimal(a)[0] == digit(a));
        assert(decimal(b)[0] == digit(b));
    } else {
        assert(decimal(a).len() == decimal(b).len());
    }
}

/// Two peers that are relayed under the same name are the same peer.
pub proof fn lemma_label_is_unique(a: PeerId, b: PeerId)
    requires
        label(a) == label(b),
    ensures
        a == b,
{
    let prefix = seq!['c', 'l', 'i', 'e', 'n', 't'];
    assert(decimal(a.0 as nat) =~= label(a).skip(prefix.len() as int));
    assert(decimal(b.0 as nat) =~= label(b).skip(prefix.len() as int));
    lemma_decimal_is_unique(a.0 as nat, b.0 as nat);
}

fn digit_str(d: u64) -> (s: &'static str)
    requires
        d < 10,
    ensures
        s@ == seq![digit(d as nat)],
{
    proof {
        reveal_strlit("0");
        reveal_strlit("1");
        reveal_strlit("2");
        reveal_strlit("3");
        reveal_strlit("4");
        reveal_strlit("5");
        reveal_strlit("6");
        reveal_strlit("7");
        reveal_strlit("8");
        reveal_strlit("9");
    }
    let s = if d == 0 {
        "0"
    } else if d == 1 {
        "1"
    } else if d == 2 {
        "2"
    } else if d == 3 {
        "3"
    } else if d == 4 {
        "4"
    } else if d == 5 {
        "5"
    } else if d == 6 {
        "6"
    } else if d == 7 {
        "7"
    } else if d == 8 {
        "8"
    } else {
        "9"
    };
    assert(s@ =~= seq![digit(d as nat)]);
    s
}

/// Writes a number in decimal.
pub fn render_decimal(n: u64) -> (s: String)
    ensures
        s@ == decimal(n as nat),
    decreases n,
{
    if n < 10 {
        String::from_str(digit_str(n))
    } else {
        let mut s = render_decimal(n / 10);
        s.append(digit_str(n % 10));
        assert(s@ =~= decimal(n as nat));
        s
    }
}

/// Writes the name under which a peer's lines are relayed.
pub fn render_label(id: PeerId) -> (s: String)
    ensures
        s@ == label(id),
{
    proof {
        reveal_strlit("client");
    }
    let mut s = String::from_str("client");
    let number = render_decimal(id.0);
    s.append(number.as_str());
    assert(s@ =~= label(id));
    s
}

/// Writes the line that the other peers get when `from` has sent `text`.
pub fn render_line(from: PeerId, text: &str) -> (line: String)
    ensures
        line@ == line_of(from, text@),
{
    proof {
        reveal_strlit("> ");
        reveal_strlit("\n");
    }
    let mut line = render_label(from);
    line.append("> ");
    line.append(text);
    line.append("\n");
    assert(line@ =~= line_of(from, text@));
    line
}

} // verus!
