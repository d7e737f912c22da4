//! The decisions of the web front end: which tab a path shows, the path of
//! each tab, how amounts are grouped, and which badge a signal wears.
use vstd::prelude::*;

use crate::text::{chars_of, lemma_digits_of_nat_text, nat_text, same_text, string_of, u64_text};

verus! {

/// The pages of the front end.
#[derive(Clone, Copy, Debug, PartialEq, Eq, Structural)]
pub enum Tab {
    Dashboard,
    Analysis,
    Trades,
    Rules,
}

/// A path without its leading slashes.
pub open spec fn strip_slashes(p: Seq<char>) -> Seq<char>
    decreases p.len(),
{
    if p.len() > 0 && p[0] == '/' {
        strip_slashes(p.drop_first())
    } else {
        p
    }
}

/// The tab a path shows: the page its name (after the slashes) names, the
/// dashboard for any other.
pub open spec fn spec_path_to_tab(p: Seq<char>) -> Tab {
    let name = strip_slashes(p);
    if name == "analysis"@ {
        Tab::Analysis
    } else if name == "trades"@ {
        Tab::Trades
    } else if name == "rules"@ {
        Tab::Rules
    } else {
        Tab::Dashboard
    }
}

/// The path of a tab.
pub open spec fn spec_tab_to_path(t: Tab) -> Seq<char> {
    match t {
        Tab::Dashboard => "/"@,
        Tab::Analysis => "/analysis"@,
        Tab::Trades => "/trades"@,
        Tab::Rules => "/rules"@,
    }
}

/// The position of the first character of `p` that is not a slash.
fn first_non_slash(p: &Vec<char>) -> (r: usize)
    ensures
        r <= p.len(),
        strip_slashes(p@) == p@.skip(r as int),
{
    let mut i: usize = 0;
    assert(p@.skip(0) =~= p@);
    while i < p.len() && p[i] == '/'
        invariant
            i <= p.len(),
            strip_slashes(p@) == strip_slashes(p@.skip(i as int)),
        decreases p.len() - i,
    {
        assert(p@.skip(i as int).drop_first() =~= p@.skip(i + 1));
        i = i + 1;
    }
    if i < p.len() {
        assert(p@.skip(i as int)[0] == p@[i as int]);
    } else {
        assert(p@.skip(i as int).len() == 0);
    }
    i
}

/// The tab a path shows.
pub fn path_to_tab(path: &str) -> (r: Tab)
    ensures
        r == spec_path_to_tab(path@),
{
    let cs = chars_of(path);
    let k = first_non_slash(&cs);
    let mut rest: Vec<char> = Vec::new();
    let mut i: usize = k;
    while i < cs.len()
        invariant
            k <= i <= cs.len(),
            rest@ == cs@.subrange(k as int, i as int),
        decreases cs.len() - i,
    {
        rest.push(cs[i]);
        i = i + 1;
    }
    assert(rest@ =~= cs@.skip(k as int));
    let name = string_of(&rest);
    if same_text(name.as_str(), "analysis") {
        Tab::Analysis
    } else if same_text(name.as_str(), "trades") {
        Tab::Trades
    } else if same_text(name.as_str(), "rules") {
        Tab::Rules
    } else {
        Tab::Dashboard
    }
}

/// The path of a tab.
pub fn tab_to_path(t: Tab) -> (r: &'static str)
    ensures
        r@ == spec_tab_to_path(t),
{
    match t {
        Tab::Dashboard => "/",
        Tab::Analysis => "/analysis",
        Tab::Trades => "/trades",
        Tab::Rules => "/rules",
    }
}

/// Each tab's path shows that tab again.
pub proof fn law_tab_path_round_trip(t: Tab)
    ensures
        spec_path_to_tab(spec_tab_to_path(t)) == t,
{
    reveal_strlit("/");
    reveal_strlit("/analysis");
    reveal_strlit("/trades");
    reveal_strlit("/rules");
    reveal_strlit("analysis");
    reveal_strlit("trades");
    reveal_strlit("rules");
    let p = spec_tab_to_path(t);
    assert(p[0] == '/');
    assert(strip_slashes(p) == strip_slashes(p.drop_first()));
    let q = p.drop_first();
    if q.len() > 0 {
        assert(q[0] != '/');
    }
    assert(strip_slashes(q) == q);
    match t {
        Tab::Dashboard => {
            assert(q.len() == 0);
            assert(q != "analysis"@);
            assert(q != "trades"@);
            assert(q != "rules"@);
        },
        Tab::Analysis => {
            assert(q =~= "analysis"@);
        },
        Tab::Trades => {
            assert(q =~= "trades"@);
            assert(q.len() != "analysis"@.len());
        },
        Tab::Rules => {
            assert(q =~= "rules"@);
            assert(q.len() != "analysis"@.len());
            assert(q.len() != "trades"@.len());
        },
    }
}

/// Digits grouped by threes from the right, the groups joined by dots.
pub open spec fn grouped(d: Seq<char>) -> Seq<char>
    decreases d.len(),
{
    if d.len() <= 3 {
        d
    } else {
        grouped(d.take(d.len() - 3)) + seq!['.'] + d.skip(d.len() - 3)
    }
}

/// A whole number with its thousands separated by dots, as amounts in
/// rupiah are written (`1.234.567`).
pub open spec fn thousands_text(n: nat) -> Seq<char> {
    grouped(nat_text(n))
}

proof fn lemma_nat_text_nonempty(n: nat)
    ensures
        nat_text(n).len() > 0,
    decreases n,
{
    if n >= 10 {
        lemma_nat_text_nonempty(n / 10);
    }
}

/// A number with its thousands separated by dots.
pub fn thousands(n: u64) -> (r: String)
    ensures
        r@ == thousands_text(n as nat),
{
    let s = u64_text(n);
    let d = chars_of(s.as_str());
    proof {
        lemma_nat_text_nonempty(n as nat);
    }
    let len = d.len();
    let first: usize = if len % 3 == 0 {
        3
    } else {
        len % 3
    };
    let mut out: Vec<char> = Vec::new();
    let mut i: usize = 0;
    while i < first
        invariant
            first <= len == d.len(),
            i <= first,
            out@ == d@.take(i as int),
        decreases first - i,
    {
        out.push(d[i]);
        assert(d@.take(i + 1) =~= d@.take(i as int).push(d@[i as int]));
        i = i + 1;
    }
    assert(grouped(d@.take(first as int)) == d@.take(first as int));
    let mut j: usize = first;
    while j < len
        invariant
            1 <= first <= j <= len == d.len(),
            (j - first) % 3 == 0,
            (len - first) % 3 == 0,
            out@ == grouped(d@.take(j as int)),
        decreases len - j,
    {
        let ghost t = d@.take(j + 3);
        assert(t.len() > 3);
        assert(t.take(t.len() - 3) =~= d@.take(j as int));
        assert(t.skip(t.len() - 3) =~= seq![d@[j as int], d@[j + 1], d@[j + 2]]);
        out.push('.');
        out.push(d[j]);
        out.push(d[j + 1]);
        out.push(d[j + 2]);
        assert(out@ =~= grouped(t));
        j = j + 3;
    }
    assert(d@.take(len as int) =~= d@);
    string_of(&out)
}

/// Keeps every character but a dot.
pub open spec fn not_dot() -> spec_fn(char) -> bool {
    |c: char| c != '.'
}

proof fn lemma_keeps_dotless(d: Seq<char>)
    requires
        forall|i: int| 0 <= i < d.len() ==> #[trigger] d[i] != '.',
    ensures
        d.filter(not_dot()) == d,
    decreases d.len(),
{
    reveal(Seq::filter);
    if d.len() > 0 {
        lemma_keeps_dotless(d.drop_last());
        assert(d.drop_last().push(d.last()) =~= d);
    }
}

proof fn lemma_grouped_digits(d: Seq<char>)
    requires
        forall|i: int| 0 <= i < d.len() ==> #[trigger] d[i] != '.',
    ensures
        grouped(d).filter(not_dot()) == d,
    decreases d.len(),
{
    if d.len() <= 3 {
        lemma_keeps_dotless(d);
    } else {
        let p = d.take(d.len() - 3);
        let q = d.skip(d.len() - 3);
        lemma_grouped_digits(p);
        lemma_keeps_dotless(q);
        Seq::filter_distributes_over_add(grouped(p) + seq!['.'], q, not_dot());
        Seq::filter_distributes_over_add(grouped(p), seq!['.'], not_dot());
        assert(seq!['.'].filter(not_dot()) =~= Seq::<char>::empty()) by {
            reveal_with_fuel(Seq::filter, 2);
            assert(seq!['.'].drop_last() =~= Seq::<char>::empty());
        }
        assert(p + Seq::<char>::empty() + q =~= d);
    }
}

/// The dots only separate the groups: without them the digits of the
/// number are left.
pub proof fn law_thousands_keeps_digits(n: nat)
    ensures
        thousands_text(n).filter(not_dot()) == nat_text(n),
{
    lemma_digits_of_nat_text(n);
    lemma_grouped_digits(nat_text(n));
}

/// The style class of a signal's badge.
pub open spec fn spec_signal_badge_class(signal: Seq<char>) -> Seq<char> {
    if signal == "StrongBuy"@ {
        "badge badge-strong-buy"@
    } else if signal == "Buy"@ {
        "badge badge-buy"@
    } else if signal == "Hold"@ {
        "badge badge-hold"@
    } else if signal == "Sell"@ {
        "badge badge-sell"@
    } else if signal == "StrongSell"@ {
        "badge badge-strong-sell"@
    } else {
        "badge"@
    }
}

/// The style class of a signal's badge.
pub fn signal_badge_class(signal: &str) -> (r: &'static str)
    ensures
        r@ == spec_signal_badge_class(signal@),
{
    if same_text(signal, "StrongBuy") {
        "badge badge-strong-buy"
    } else if same_text(signal, "Buy") {
        "badge badge-buy"
    } else if same_text(signal, "Hold") {
        "badge badge-hold"
    } else if same_text(signal, "Sell") {
        "badge badge-sell"
    } else if same_text(signal, "StrongSell") {
        "badge badge-strong-sell"
    } else {
        "badge"
    }
}

} // verus!
