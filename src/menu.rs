use vstd::prelude::*;
use vstd::string::{StrSliceExecFns, StringExecFns};

use crate::state::MenuItem;

verus! {

/// A decimal digit.
pub open spec fn is_digit(c: char) -> bool {
    '0' <= c && c <= '9'
}

/// The value of a decimal digit.
pub open spec fn digit_value(c: char) -> nat {
    ((c as u32) - ('0' as u32)) as nat
}

/// The number that a string of decimal digits writes, most significant first.
pub open spec fn decimal_value(s: Seq<char>) -> nat
    decreases s.len(),
{
    if s.len() == 0 {
        0
    } else {
        decimal_value(s.drop_last()) * 10 + digit_value(s.last())
    }
}

/// A non-empty string of decimal digits.
pub open spec fn is_decimal(s: Seq<char>) -> bool {
    s.len() > 0 && forall|i: int| 0 <= i < s.len() ==> is_digit(#[trigger] s[i])
}

/// The menu item that the id `id` stands for: the fixed items by their
/// names, and entry `n` as `window-` followed by `n` in decimal.
pub open spec fn menu_item_of(id: Seq<char>) -> Option<MenuItem> {
    if id == "quit"@ {
        Some(MenuItem::Quit)
    } else if id == "visible"@ {
        Some(MenuItem::ToggleVisible)
    } else if id == "reset"@ {
        Some(MenuItem::Reset)
    } else if id == "restart"@ {
        Some(MenuItem::Restart)
    } else {
        let p = "window-"@;
        let rest = id.subrange(p.len() as int, id.len() as int);
        if id.len() >= p.len() && id.subrange(0, p.len() as int) == p && is_decimal(rest)
            && decimal_value(rest) <= usize::MAX {
            Some(MenuItem::SelectEntry(decimal_value(rest) as usize))
        } else {
            None
        }
    }
}

/// The character of decimal digit `d`.
pub open spec fn digit_char(d: nat) -> char {
    seq!['0', '1', '2', '3', '4', '5', '6', '7', '8', '9'][d as int]
}

/// `n` written in decimal, most significant digit first, without leading zeros.
pub open spec fn decimal_text(n: nat) -> Seq<char>
    decreases n,
{
    if n < 10 {
        seq![digit_char(n)]
    } else {
        decimal_text(n / 10).push(digit_char(n % 10))
    }
}

/// The menu id of `item`.
pub open spec fn id_text(item: MenuItem) -> Seq<char> {
    match item {
        MenuItem::Quit => "quit"@,
        MenuItem::ToggleVisible => "visible"@,
        MenuItem::Reset => "reset"@,
        MenuItem::Restart => "restart"@,
        MenuItem::SelectEntry(n) => "window-"@ + decimal_text(n as nat),
    }
}

proof fn lemma_digit(d: nat)
    requires
        d < 10,
    ensures
        is_digit(digit_char(d)),
        digit_value(digit_char(d)) == d,
{
    let ds = seq!['0', '1', '2', '3', '4', '5', '6', '7', '8', '9'];
    assert(ds[0] == '0' && ds[1] == '1' && ds[2] == '2' && ds[3] == '3' && ds[4] == '4');
    assert(ds[5] == '5' && ds[6] == '6' && ds[7] == '7' && ds[8] == '8' && ds[9] == '9');
}

proof fn lemma_decimal_text(n: nat)
    ensures
        is_decimal(decimal_text(n)),
        decimal_value(decimal_text(n)) == n,
        decimal_text(n).len() >= 1,
    decreases n,
{
    let t = decimal_text(n);
    lemma_digit(n % 10);
    if n < 10 {
        assert(t.drop_last() =~= Seq::<char>::empty());
        assert(decimal_value(Seq::<char>::empty()) == 0);
        assert(t.last() == digit_char(n));
        assert(n % 10 == n);
    } else {
        lemma_decimal_text(n / 10);
        assert(t.drop_last() =~= decimal_text(n / 10));
        assert(t.last() == digit_char(n % 10));
        assert(decimal_value(t) == decimal_value(decimal_text(n / 10)) * 10 + digit_value(t.last()));
        assert((n / 10) * 10 + n % 10 == n);
        assert forall|i: int| 0 <= i < t.len() implies is_digit(#[trigger] t[i]) by {
            if i < t.len() - 1 {
                assert(t[i] == decimal_text(n / 10)[i]);
            }
        }
    }
}

/// The id of an item reads back as that item.
pub proof fn lemma_id_round_trip(item: MenuItem)
    ensures
        menu_item_of(id_text(item)) == Some(item),
{
    reveal_strlit("quit");
    reveal_strlit("visible");
    reveal_strlit("reset");
    reveal_strlit("restart");
    reveal_strlit("window-");
    if let MenuItem::SelectEntry(n) = item {
        let id = id_text(item);
        lemma_decimal_text(n as nat);
        assert(id.subrange(0, 7) =~= "window-"@);
        assert(id.subrange(7, id.len() as int) =~= decimal_text(n as nat));
        assert(id.len() >= 8);
        assert(id != "quit"@ && id != "visible"@ && id != "reset"@ && id != "restart"@) by {
            assert(id.len() != "quit"@.len());
            assert(id.len() != "visible"@.len());
            assert(id.len() != "reset"@.len());
            assert(id.len() != "restart"@.len());
        }
    } else {
        assert("visible"@ != "quit"@) by { assert("visible"@.len() != "quit"@.len()); }
        assert("reset"@ != "quit"@ && "reset"@ != "visible"@) by {
            assert("reset"@.len() != "quit"@.len());
            assert("reset"@.len() != "visible"@.len());
        }
        assert("restart"@ != "quit"@ && "restart"@ != "reset"@ && "restart"@ != "visible"@) by {
            assert("restart"@.len() != "quit"@.len());
            assert("restart"@.len() != "reset"@.len());
            assert("restart"@[0] != "visible"@[0]);
        }
    }
}

/// The text of decimal digit `d`.
fn digit_text(d: usize) -> (r: &'static str)
    requires
        d < 10,
    ensures
        r@ == seq![digit_char(d as nat)],
{
    proof {
        reveal_strlit("0");
        reveal_strlit("1");
        reveal_strlit("2");
        reveal_strlit("3");
        reveal_strlit("4");
        reveal_strlit("5");
        reveal_strlit("6");
        reveal_strlit("7");
        reveal_strlit("8");
        reveal_strlit("9");
    }
    match d {
        0 => "0",
        1 => "1",
        2 => "2",
        3 => "3",
        4 => "4",
        5 => "5",
        6 => "6",
        7 => "7",
        8 => "8",
        _ => "9",
    }
}

/// Appends `n` in decimal to `out`.
fn append_decimal(out: &mut String, n: usize)
    ensures
        final(out)@ == old(out)@ + decimal_text(n as nat),
    decreases n,
{
    if n >= 10 {
        append_decimal(out, n / 10);
    }
    out.append(digit_text(n % 10));
    assert(final(out)@ =~= old(out)@ + decimal_text(n as nat));
}

proof fn lemma_value_grows(s: Seq<char>, k: int)
    requires
        0 <= k <= s.len(),
    ensures
        decimal_value(s.subrange(0, k)) <= decimal_value(s),
    decreases s.len(),
{
    if k < s.len() {
        lemma_value_grows(s.drop_last(), k);
        assert(s.drop_last().subrange(0, k) =~= s.subrange(0, k));
    } else {
        assert(s.subrange(0, k) =~= s);
    }
}

/// Whether `a` and `b` hold the same characters.
fn same_text(a: &str, b: &str) -> (r: bool)
    ensures
        r == (a@ == b@),
{
    let n = a.unicode_len();
    if n != b.unicode_len() {
        return false;
    }
    let mut i: usize = 0;
    while i < n
        invariant
            n == a@.len() == b@.len(),
            i <= n,
            forall|j: int| 0 <= j < i ==> a@[j] == b@[j],
        decreases n - i,
    {
        if a.get_char(i) != b.get_char(i) {
            return false;
        }
        i += 1;
    }
    assert(a@ =~= b@);
    true
}

/// Whether `a` begins with the characters of `p`.
fn starts_with_text(a: &str, p: &str) -> (r: bool)
    ensures
        r == (a@.len() >= p@.len() && a@.subrange(0, p@.len() as int) == p@),
{
    let n = p.unicode_len();
    if a.unicode_len() < n {
        return false;
    }
    let mut i: usize = 0;
    while i < n
        invariant
            n == p@.len() <= a@.len(),
            i <= n,
            forall|j: int| 0 <= j < i ==> a@[j] == p@[j],
        decreases n - i,
    {
        if a.get_char(i) != p.get_char(i) {
            assert(a@.subrange(0, n as int)[i as int] != p@[i as int]);
            return false;
        }
        i += 1;
    }
    assert(a@.subrange(0, n as int) =~= p@);
    true
}

/// The number written in decimal by the characters of `s` from `start` on,
/// if they are one or more digits and the number fits in `usize`.
fn parse_decimal(s: &str, start: usize) -> (r: Option<usize>)
    requires
        start <= s@.len(),
    ensures
        ({
            let rest = s@.subrange(start as int, s@.len() as int);
            match r {
                Some(v) => is_decimal(rest) && v == decimal_value(rest),
                None => !is_decimal(rest) || decimal_value(rest) > usize::MAX,
            }
        }),
{
    let n = s.unicode_len();
    let ghost rest = s@.subrange(start as int, n as int);
    if start == n {
        return None;
    }
    let mut value: usize = 0;
    let mut k: usize = start;
    while k < n
        invariant
            n == s@.len(),
            start < n,
            rest == s@.subrange(start as int, n as int),
            start <= k <= n,
            forall|i: int| start <= i < k ==> is_digit(#[trigger] s@[i]),
            value == decimal_value(s@.subrange(start as int, k as int)),
        decreases n - k,
    {
        let c = s.get_char(k);
        if !('0' <= c && c <= '9') {
            assert(rest[k - start] == c);
            return None;
        }
        let d = (c as u32 - '0' as u32) as usize;
        let ghost next = s@.subrange(start as int, k + 1);
        assert(next.drop_last() =~= s@.subrange(start as int, k as int));
        assert(decimal_value(next) == value * 10 + d);
        if value > (usize::MAX - d) / 10 {
            proof {
                assert(value * 10 + d > usize::MAX) by (nonlinear_arith)
                    requires
                        value > (usize::MAX - d) / 10,
                        d <= 9,
                ;
                assert(rest.subrange(0, (k + 1 - start) as int) =~= next);
                lemma_value_grows(rest, (k + 1 - start) as int);
            }
            return None;
        }
        assert(value * 10 + d <= usize::MAX) by (nonlinear_arith)
            requires
                value <= (usize::MAX - d) / 10,
                d <= 9,
        ;
        value = value * 10 + d;
        k += 1;
    }
    assert(s@.subrange(start as int, k as int) =~= rest);
    Some(value)
}

impl MenuItem {
    /// The menu id of this item; `from_id` reads it back as this item.
    pub fn id(&self) -> (r: String)
        ensures
            r@ == id_text(*self),
            menu_item_of(r@) == Some(*self),
    {
        proof {
            lemma_id_round_trip(*self);
        }
        match self {
            MenuItem::Quit => String::from_str("quit"),
            MenuItem::ToggleVisible => String::from_str("visible"),
            MenuItem::Reset => String::from_str("reset"),
            MenuItem::Restart => String::from_str("restart"),
            MenuItem::SelectEntry(n) => {
                let mut out = String::from_str("window-");
                append_decimal(&mut out, *n);
                out
            },
        }
    }

    /// The menu item that a menu id stands for, if any.
    pub fn from_id(id: &str) -> (r: Option<MenuItem>)
        ensures
            r == menu_item_of(id@),
    {
        if same_text(id, "quit") {
            Some(MenuItem::Quit)
        } else if same_text(id, "visible") {
            Some(MenuItem::ToggleVisible)
        } else if same_text(id, "reset") {
            Some(MenuItem::Reset)
        } else if same_text(id, "restart") {
            Some(MenuItem::Restart)
        } else if starts_with_text(id, "window-") {
            let p = "window-".unicode_len();
            match parse_decimal(id, p) {
                Some(v) => Some(MenuItem::SelectEntry(v)),
                None => None,
            }
        } else {
            None
        }
    }
}

} // verus!
