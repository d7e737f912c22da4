//! In-memory repositories of orders, trade rules and analyses.
use vstd::prelude::*;

use crate::clock::{uuid_text, uuid_to_text};
use crate::domain::{is_terminal_status, DomainError, Order, StockAnalysis, Timestamp, TradeRule};
use crate::text::same_text;

verus! {

/// No two orders share an id.
pub open spec fn distinct_ids(os: Seq<Order>) -> bool {
    forall|i: int, j: int|
        0 <= i < os.len() && 0 <= j < os.len() && i != j ==> (#[trigger] os[i]).id != (
        #[trigger] os[j]).id
}

/// The orders of `os` that are not terminal, in order.
pub open spec fn open_orders(os: Seq<Order>) -> Seq<Order>
    decreases os.len(),
{
    if os.len() == 0 {
        Seq::empty()
    } else if !is_terminal_status(os.last().status) {
        open_orders(os.drop_last()).push(os.last())
    } else {
        open_orders(os.drop_last())
    }
}

/// `i` is the first order whose id is written `text`.
pub open spec fn is_first_with_text(os: Seq<Order>, text: Seq<char>, i: int) -> bool {
    &&& 0 <= i < os.len()
    &&& uuid_text(os[i].id) == text
    &&& forall|j: int| 0 <= j < i ==> uuid_text((#[trigger] os[j]).id) != text
}

/// Orders kept in memory, at most one per id.
pub struct InMemoryOrderRepo {
    pub data: Vec<Order>,
}

impl InMemoryOrderRepo {
    /// No two stored orders share an id.
    pub open spec fn inv(self) -> bool {
        distinct_ids(self.data@)
    }

    /// An empty repository.
    pub fn new() -> (r: InMemoryOrderRepo)
        ensures
            r.data@.len() == 0,
            r.inv(),
    {
        InMemoryOrderRepo { data: Vec::new() }
    }

    /// Stores the order: it replaces the stored order with the same id, or is
    /// added at the end.
    pub fn save(&mut self, order: &Order) -> (r: Result<(), DomainError>)
        requires
            old(self).inv(),
        ensures
            r is Ok,
            final(self).inv(),
            match index_of_id(old(self).data@, order.id) {
                Some(k) => final(self).data@ == old(self).data@.update(k, *order),
                None => final(self).data@ == old(self).data@.push(*order),
            },
    {
        let ghost d = self.data@;
        let mut i: usize = 0;
        while i < self.data.len()
            invariant
                d == self.data@,
                d == old(self).data@,
                distinct_ids(d),
                i <= d.len(),
                forall|j: int| 0 <= j < i ==> (#[trigger] d[j]).id != order.id,
            decreases d.len() - i,
        {
            if self.data[i].id == order.id {
                proof {
                    lemma_index_of_id(d, order.id, i as int);
                }
                self.data.set(i, order.clone());
                proof {
                    assert forall|a: int, b: int|
                        0 <= a < self.data@.len() && 0 <= b < self.data@.len() && a != b implies (
                    #[trigger] self.data@[a]).id != (#[trigger] self.data@[b]).id by {
                        if a != i && b != i {
                            assert(d[a].id != d[b].id);
                        } else if a == i {
                            assert(d[a].id != d[b].id);
                        } else {
                            assert(d[a].id != d[b].id);
                        }
                    }
                }
                return Ok(());
            }
            i = i + 1;
        }
        proof {
            assert(!(exists|j: int| 0 <= j < d.len() && (#[trigger] d[j]).id == order.id));
        }
        self.data.push(order.clone());
        proof {
            assert forall|a: int, b: int|
                0 <= a < self.data@.len() && 0 <= b < self.data@.len() && a != b implies (
            #[trigger] self.data@[a]).id != (#[trigger] self.data@[b]).id by {
                if a < d.len() && b < d.len() {
                    assert(d[a].id != d[b].id);
                }
            }
        }
        Ok(())
    }

    /// The first stored order whose id, written out, is `id`.
    pub fn find_by_id(&self, id: &str) -> (r: Result<Option<Order>, DomainError>)
        ensures
            r matches Ok(o) && match o {
                Some(o) => exists|i: int|
                    is_first_with_text(self.data@, id@, i) && o == #[trigger] self.data@[i],
                None => forall|i: int|
                    0 <= i < self.data@.len() ==> uuid_text((#[trigger] self.data@[i]).id) != id@,
            },
    {
        let mut i: usize = 0;
        while i < self.data.len()
            invariant
                i <= self.data.len(),
                forall|j: int|
                    0 <= j < i ==> uuid_text((#[trigger] self.data@[j]).id) != id@,
            decreases self.data.len() - i,
        {
            let text = uuid_to_text(self.data[i].id);
            if same_text(text.as_str(), id) {
                let o = self.data[i].clone();
                assert(is_first_with_text(self.data@, id@, i as int));
                return Ok(Some(o));
            }
            i = i + 1;
        }
        Ok(None)
    }

    /// The stored orders that are not terminal, in the order stored.
    pub fn find_open_orders(&self) -> (r: Result<Vec<Order>, DomainError>)
        ensures
            r matches Ok(v) && v@ == open_orders(self.data@),
    {
        let ghost os = self.data@;
        let mut out: Vec<Order> = Vec::new();
        let mut i: usize = 0;
        assert(os.take(0) =~= Seq::<Order>::empty());
        while i < self.data.len()
            invariant
                os == self.data@,
                i <= os.len(),
                out@ == open_orders(os.take(i as int)),
            decreases os.len() - i,
        {
            assert(os.take(i + 1).drop_last() =~= os.take(i as int));
            if !self.data[i].is_terminal() {
                out.push(self.data[i].clone());
            }
            i = i + 1;
        }
        assert(os.take(os.len() as int) =~= os);
        Ok(out)
    }
}

/// The index of the order with id `id`, if stored (ids are distinct).
pub open spec fn index_of_id(os: Seq<Order>, id: u128) -> Option<int> {
    if exists|i: int| 0 <= i < os.len() && (#[trigger] os[i]).id == id {
        Some(choose|i: int| 0 <= i < os.len() && (#[trigger] os[i]).id == id)
    } else {
        None
    }
}

proof fn lemma_index_of_id(os: Seq<Order>, id: u128, k: int)
    requires
        distinct_ids(os),
        0 <= k < os.len(),
        os[k].id == id,
    ensures
        index_of_id(os, id) == Some(k),
{
    assert(os[k].id == id);
    let c = choose|i: int| 0 <= i < os.len() && (#[trigger] os[i]).id == id;
    if c != k {
        assert(os[c].id != os[k].id);
    }
}

/// After an order is saved, exactly one stored order has its id, and it is
/// that order; looking it up by its written id finds an order.
pub proof fn law_saved_order_is_found(before: InMemoryOrderRepo, after: InMemoryOrderRepo, o: Order)
    requires
        before.inv(),
        after.inv(),
        match index_of_id(before.data@, o.id) {
            Some(k) => after.data@ == before.data@.update(k, o),
            None => after.data@ == before.data@.push(o),
        },
    ensures
        index_of_id(after.data@, o.id) matches Some(k) && after.data@[k] == o,
        exists|i: int| is_first_with_text(after.data@, uuid_text(o.id), i),
{
    let d = after.data@;
    let k = match index_of_id(before.data@, o.id) {
        Some(k) => k,
        None => before.data@.len() as int,
    };
    assert(0 <= k < d.len());
    assert(d[k] == o);
    lemma_index_of_id(d, o.id, k);
    lemma_first_text_exists(d, uuid_text(o.id), k);
}

proof fn lemma_first_text_exists(os: Seq<Order>, text: Seq<char>, i: int)
    requires
        0 <= i < os.len(),
        uuid_text(os[i].id) == text,
    ensures
        exists|k: int| is_first_with_text(os, text, k),
    decreases i,
{
    if forall|j: int| 0 <= j < i ==> uuid_text((#[trigger] os[j]).id) != text {
        assert(is_first_with_text(os, text, i));
    } else {
        let j = choose|j: int| 0 <= j < i && uuid_text((#[trigger] os[j]).id) == text;
        lemma_first_text_exists(os, text, j);
    }
}

/// No two entries share a symbol.
pub open spec fn distinct_keys(s: Seq<(String, TradeRule)>) -> bool {
    forall|i: int, j: int|
        0 <= i < s.len() && 0 <= j < s.len() && i != j ==> (#[trigger] s[i]).0@ != (
        #[trigger] s[j]).0@
}

/// Some entry is for `k`.
pub open spec fn has_key(s: Seq<(String, TradeRule)>, k: Seq<char>) -> bool {
    exists|i: int| 0 <= i < s.len() && (#[trigger] s[i]).0@ == k
}

/// The index of an entry for `k`.
pub open spec fn key_index(s: Seq<(String, TradeRule)>, k: Seq<char>) -> int {
    choose|i: int| 0 <= i < s.len() && (#[trigger] s[i]).0@ == k
}

/// The entries as a map from symbol to rule.
pub open spec fn rules_map(s: Seq<(String, TradeRule)>) -> Map<Seq<char>, TradeRule> {
    Map::new(|k: Seq<char>| has_key(s, k), |k: Seq<char>| s[key_index(s, k)].1)
}

proof fn lemma_key_index(s: Seq<(String, TradeRule)>, k: Seq<char>, i: int)
    requires
        distinct_keys(s),
        0 <= i < s.len(),
        s[i].0@ == k,
    ensures
        has_key(s, k),
        key_index(s, k) == i,
{
    assert(s[i].0@ == k);
    let c = key_index(s, k);
    if c != i {
        assert(s[c].0@ != s[i].0@);
    }
}

/// Trade rules kept in memory, one per symbol.
///
/// The rules are a list of (symbol, rule) pairs with distinct symbols rather
/// than a `HashMap` keyed by `String`: vstd states what a `HashMap` does only
/// for keys whose hashing it models (`obeys_key_model`, given for integers
/// and `bool`, not for `String`), so nothing could be proved of such a map
/// without an assumption. The map that `rules` gives is the same; where the
/// `HashMap` lists its entries in no stated order, `find_all` lists them in
/// the order the symbols were first saved.
pub struct InMemoryTradeRuleRepo {
    pub data: Vec<(String, TradeRule)>,
}

impl InMemoryTradeRuleRepo {
    /// No symbol has two rules.
    pub open spec fn inv(self) -> bool {
        distinct_keys(self.data@)
    }

    /// The rules by symbol.
    pub open spec fn rules(self) -> Map<Seq<char>, TradeRule> {
        rules_map(self.data@)
    }

    /// An empty repository.
    pub fn new() -> (r: InMemoryTradeRuleRepo)
        ensures
            r.inv(),
            r.rules() == Map::<Seq<char>, TradeRule>::empty(),
    {
        let r = InMemoryTradeRuleRepo { data: Vec::new() };
        assert(r.rules() =~= Map::<Seq<char>, TradeRule>::empty());
        r
    }

    /// The index of the entry for `symbol`, if any.
    fn position_of(&self, symbol: &str) -> (r: Option<usize>)
        requires
            self.inv(),
        ensures
            match r {
                Some(i) => i < self.data@.len() && self.data@[i as int].0@ == symbol@,
                None => !has_key(self.data@, symbol@),
            },
    {
        let mut i: usize = 0;
        while i < self.data.len()
            invariant
                i <= self.data.len(),
                forall|j: int| 0 <= j < i ==> (#[trigger] self.data@[j]).0@ != symbol@,
            decreases self.data.len() - i,
        {
            if same_text(self.data[i].0.as_str(), symbol) {
                return Some(i);
            }
            i = i + 1;
        }
        None
    }

    /// Stores the rule for `symbol`, replacing any rule it had.
    pub fn save(&mut self, symbol: &str, rule: &TradeRule) -> (r: Result<(), DomainError>)
        requires
            old(self).inv(),
        ensures
            r is Ok,
            final(self).inv(),
            final(self).rules() == old(self).rules().insert(symbol@, *rule),
    {
        let ghost d = self.data@;
        let entry = (String::from_str(symbol), *rule);
        match self.position_of(symbol) {
            Some(i) => {
                self.data.set(i, entry);
                proof {
                    let n = self.data@;
                    assert forall|a: int, b: int|
                        0 <= a < n.len() && 0 <= b < n.len() && a != b implies (#[trigger] n[a]).0@
                        != (#[trigger] n[b]).0@ by {
                        assert(d[a].0@ != d[b].0@);
                    }
                    assert forall|k: Seq<char>| #[trigger] has_key(n, k) == (has_key(d, k) || k == symbol@) by {
                        if has_key(n, k) {
                            let j = choose|j: int| 0 <= j < n.len() && (#[trigger] n[j]).0@ == k;
                            if j != i {
                                assert(d[j].0@ == k);
                            }
                        }
                        if has_key(d, k) {
                            let j = choose|j: int| 0 <= j < d.len() && (#[trigger] d[j]).0@ == k;
                            assert(n[j].0@ == k);
                        }
                        if k == symbol@ {
                            assert(n[i as int].0@ == k);
                        }
                    }
                    assert forall|k: Seq<char>| has_key(n, k) implies #[trigger] rules_map(n)[k] == rules_map(d).insert(symbol@, *rule)[k] by {
                        let j = choose|j: int| 0 <= j < n.len() && (#[trigger] n[j]).0@ == k;
                        lemma_key_index(n, k, j);
                        if k != symbol@ {
                            assert(d[j].0@ == k);
                            lemma_key_index(d, k, j);
                        }
                    }
                    assert(rules_map(n) =~= rules_map(d).insert(symbol@, *rule));
                }
            },
            None => {
                self.data.push(entry);
                proof {
                    let n = self.data@;
                    assert forall|a: int, b: int|
                        0 <= a < n.len() && 0 <= b < n.len() && a != b implies (#[trigger] n[a]).0@
                        != (#[trigger] n[b]).0@ by {
                        if a < d.len() && b < d.len() {
                            assert(d[a].0@ != d[b].0@);
                        } else if a < d.len() {
                            assert(d[a].0@ != symbol@);
                        } else if b < d.len() {
                            assert(d[b].0@ != symbol@);
                        }
                    }
                    assert forall|k: Seq<char>| #[trigger] has_key(n, k) == (has_key(d, k) || k == symbol@) by {
                        if has_key(n, k) {
                            let j = choose|j: int| 0 <= j < n.len() && (#[trigger] n[j]).0@ == k;
                            if j < d.len() {
                                assert(d[j].0@ == k);
                            }
                        }
                        if has_key(d, k) {
                            let j = choose|j: int| 0 <= j < d.len() && (#[trigger] d[j]).0@ == k;
                            assert(n[j].0@ == k);
                        }
                        if k == symbol@ {
                            assert(n[d.len() as int].0@ == k);
                        }
                    }
                    assert forall|k: Seq<char>| has_key(n, k) implies #[trigger] rules_map(n)[k] == rules_map(d).insert(symbol@, *rule)[k] by {
                        let j = choose|j: int| 0 <= j < n.len() && (#[trigger] n[j]).0@ == k;
                        lemma_key_index(n, k, j);
                        if k != symbol@ {
                            assert(j < d.len());
                            assert(d[j].0@ == k);
                            lemma_key_index(d, k, j);
                        }
                    }
                    assert(rules_map(n) =~= rules_map(d).insert(symbol@, *rule));
                }
            },
        }
        Ok(())
    }

    /// The rule for `symbol`, if any.
    pub fn find(&self, symbol: &str) -> (r: Result<Option<TradeRule>, DomainError>)
        requires
            self.inv(),
        ensures
            r matches Ok(o) && o == (if self.rules().dom().contains(symbol@) {
                Some(self.rules()[symbol@])
            } else {
                None
            }),
    {
        match self.position_of(symbol) {
            Some(i) => {
                proof {
                    lemma_key_index(self.data@, symbol@, i as int);
                }
                Ok(Some(self.data[i].1))
            },
            None => Ok(None),
        }
    }

    /// Every symbol with its rule.
    pub fn find_all(&self) -> (r: Result<Vec<(String, TradeRule)>, DomainError>)
        ensures
            r matches Ok(v) && v@.len() == self.data@.len() && forall|i: int|
                0 <= i < v@.len() ==> (#[trigger] v@[i]).0@ == self.data@[i].0@ && v@[i].1
                    == self.data@[i].1,
    {
        let mut out: Vec<(String, TradeRule)> = Vec::new();
        let mut i: usize = 0;
        while i < self.data.len()
            invariant
                i <= self.data.len(),
                out@.len() == i,
                forall|j: int|
                    0 <= j < i ==> (#[trigger] out@[j]).0@ == self.data@[j].0@ && out@[j].1
                        == self.data@[j].1,
            decreases self.data.len() - i,
        {
            out.push((self.data[i].0.clone(), self.data[i].1));
            i = i + 1;
        }
        Ok(out)
    }

    /// Removes the rule for `symbol`, if any.
    pub fn delete(&mut self, symbol: &str) -> (r: Result<(), DomainError>)
        requires
            old(self).inv(),
        ensures
            r is Ok,
            final(self).inv(),
            final(self).rules() == old(self).rules().remove(symbol@),
    {
        let ghost d = self.data@;
        match self.position_of(symbol) {
            Some(i) => {
                self.data.remove(i);
                proof {
                    let n = self.data@;
                    assert forall|a: int| 0 <= a < n.len() implies #[trigger] n[a] == d[if a < i { a } else { a + 1 }] by {}
                    assert forall|a: int, b: int|
                        0 <= a < n.len() && 0 <= b < n.len() && a != b implies (#[trigger] n[a]).0@
                        != (#[trigger] n[b]).0@ by {
                        let oa = if a < i { a } else { a + 1 };
                        let ob = if b < i { b } else { b + 1 };
                        assert(n[a] == d[oa]);
                        assert(n[b] == d[ob]);
                        assert(d[oa].0@ != d[ob].0@);
                    }
                    assert forall|k: Seq<char>| #[trigger] has_key(n, k) == (has_key(d, k) && k != symbol@) by {
                        if has_key(n, k) {
                            let j = choose|j: int| 0 <= j < n.len() && (#[trigger] n[j]).0@ == k;
                            let oj = if j < i { j } else { j + 1 };
                            assert(n[j] == d[oj]);
                            assert(d[oj].0@ == k);
                            assert(d[oj].0@ != d[i as int].0@);
                        }
                        if has_key(d, k) && k != symbol@ {
                            let j = choose|j: int| 0 <= j < d.len() && (#[trigger] d[j]).0@ == k;
                            assert(j != i);
                            let nj = if j < i { j } else { j - 1 };
                            assert(n[nj] == d[j]);
                            assert(n[nj].0@ == k);
                        }
                    }
                    assert forall|k: Seq<char>| has_key(n, k) implies #[trigger] rules_map(n)[k] == rules_map(d)[k] by {
                        let j = choose|j: int| 0 <= j < n.len() && (#[trigger] n[j]).0@ == k;
                        lemma_key_index(n, k, j);
                        let oj = if j < i { j } else { j + 1 };
                        assert(n[j] == d[oj]);
                        lemma_key_index(d, k, oj);
                    }
                    assert(rules_map(n) =~= rules_map(d).remove(symbol@));
                }
            },
            None => {
                assert(rules_map(d) =~= rules_map(d).remove(symbol@));
            },
        }
        Ok(())
    }
}

/// What looking a symbol up in the rule repository gives.
pub open spec fn rule_lookup(repo: InMemoryTradeRuleRepo, symbol: Seq<char>) -> Option<TradeRule> {
    if repo.rules().dom().contains(symbol) {
        Some(repo.rules()[symbol])
    } else {
        None
    }
}

/// After a rule is saved for a symbol, looking the symbol up finds that rule,
/// and every other symbol finds what it found before.
pub proof fn law_saved_rule_is_found(
    before: InMemoryTradeRuleRepo,
    after: InMemoryTradeRuleRepo,
    symbol: Seq<char>,
    rule: TradeRule,
)
    requires
        after.rules() == before.rules().insert(symbol, rule),
    ensures
        rule_lookup(after, symbol) == Some(rule),
        forall|k: Seq<char>| k != symbol ==> #[trigger] rule_lookup(after, k) == rule_lookup(before, k),
{
}

/// After a symbol's rule is deleted, looking the symbol up finds nothing,
/// and every other symbol finds what it found before.
pub proof fn law_deleted_rule_is_gone(
    before: InMemoryTradeRuleRepo,
    after: InMemoryTradeRuleRepo,
    symbol: Seq<char>,
)
    requires
        after.rules() == before.rules().remove(symbol),
    ensures
        rule_lookup(after, symbol) is None,
        forall|k: Seq<char>| k != symbol ==> #[trigger] rule_lookup(after, k) == rule_lookup(before, k),
{
}

/// `a` is strictly earlier than `b`.
pub open spec fn ts_before(a: Timestamp, b: Timestamp) -> bool {
    !b.le(a)
}

/// `i` is the latest analysis of `symbol`: no analysis of it is later, and
/// none after it in the list is as late (the last of equally late ones).
pub open spec fn is_latest(s: Seq<StockAnalysis>, symbol: Seq<char>, i: int) -> bool {
    &&& 0 <= i < s.len()
    &&& s[i].symbol@ == symbol
    &&& forall|j: int|
        0 <= j < s.len() && (#[trigger] s[j]).symbol@ == symbol ==> s[j].analyzed_at.le(
            s[i].analyzed_at,
        )
    &&& forall|j: int|
        i < j < s.len() && (#[trigger] s[j]).symbol@ == symbol ==> ts_before(
            s[j].analyzed_at,
            s[i].analyzed_at,
        )
}

/// Inserting index `x` into a list of indices kept latest first: it goes
/// before the first index whose analysis is strictly earlier.
pub open spec fn insert_latest_first(s: Seq<StockAnalysis>, l: Seq<int>, x: int) -> Seq<int>
    decreases l.len(),
{
    if l.len() == 0 {
        seq![x]
    } else if ts_before(s[l[0]].analyzed_at, s[x].analyzed_at) {
        seq![x] + l
    } else {
        seq![l[0]] + insert_latest_first(s, l.drop_first(), x)
    }
}

/// The indices `0..n` ordered latest first, equally late ones in list order
/// (a stable sort by time, latest first).
pub open spec fn latest_first(s: Seq<StockAnalysis>, n: nat) -> Seq<int>
    decreases n,
{
    if n == 0 {
        Seq::empty()
    } else {
        insert_latest_first(s, latest_first(s, (n - 1) as nat), n - 1)
    }
}

proof fn lemma_insert_at(s: Seq<StockAnalysis>, l: Seq<int>, x: int, p: int)
    requires
        0 <= p <= l.len(),
        forall|j: int| 0 <= j < p ==> !ts_before(s[#[trigger] l[j]].analyzed_at, s[x].analyzed_at),
        p < l.len() ==> ts_before(s[l[p]].analyzed_at, s[x].analyzed_at),
    ensures
        insert_latest_first(s, l, x) == l.take(p) + seq![x] + l.skip(p),
    decreases l.len(),
{
    if l.len() == 0 {
        assert(l.take(p) + seq![x] + l.skip(p) =~= seq![x]);
    } else if p == 0 {
        assert(l.take(p) + seq![x] + l.skip(p) =~= seq![x] + l);
    } else {
        let t = l.drop_first();
        assert forall|j: int| 0 <= j < p - 1 implies !ts_before(s[#[trigger] t[j]].analyzed_at, s[x].analyzed_at) by {
            assert(t[j] == l[j + 1]);
        }
        lemma_insert_at(s, t, x, p - 1);
        assert(l.take(p) + seq![x] + l.skip(p) =~= seq![l[0]] + (t.take(p - 1) + seq![x] + t.skip(
            p - 1,
        )));
    }
}

/// Later analyses come first in the list of indices `l`.
pub open spec fn latest_ordered(s: Seq<StockAnalysis>, l: Seq<int>) -> bool {
    forall|i: int, j: int|
        0 <= i < j < l.len() ==> !ts_before(
            s[#[trigger] l[i]].analyzed_at,
            s[#[trigger] l[j]].analyzed_at,
        )
}

proof fn lemma_insert_elements(s: Seq<StockAnalysis>, l: Seq<int>, x: int)
    ensures
        insert_latest_first(s, l, x).len() == l.len() + 1,
        forall|k: int|
            0 <= k < l.len() + 1 ==> #[trigger] insert_latest_first(s, l, x)[k] == x || l.contains(
                insert_latest_first(s, l, x)[k],
            ),
    decreases l.len(),
{
    if l.len() > 0 && !ts_before(s[l[0]].analyzed_at, s[x].analyzed_at) {
        let t = l.drop_first();
        lemma_insert_elements(s, t, x);
        let r = insert_latest_first(s, l, x);
        assert forall|k: int| 0 <= k < l.len() + 1 implies #[trigger] r[k] == x || l.contains(r[k]) by {
            if k > 0 {
                let q = insert_latest_first(s, t, x);
                assert(r[k] == q[k - 1]);
                if q[k - 1] != x {
                    let w = choose|w: int| 0 <= w < t.len() && t[w] == q[k - 1];
                    assert(l[w + 1] == r[k]);
                }
            } else {
                assert(r[0] == l[0]);
            }
        }
    }
}

proof fn lemma_insert_ordered(s: Seq<StockAnalysis>, l: Seq<int>, x: int)
    requires
        latest_ordered(s, l),
    ensures
        latest_ordered(s, insert_latest_first(s, l, x)),
    decreases l.len(),
{
    let r = insert_latest_first(s, l, x);
    if l.len() == 0 {
    } else if ts_before(s[l[0]].analyzed_at, s[x].analyzed_at) {
        assert forall|i: int, j: int| 0 <= i < j < r.len() implies !ts_before(
            s[#[trigger] r[i]].analyzed_at,
            s[#[trigger] r[j]].analyzed_at,
        ) by {
            if i == 0 {
                assert(r[j] == l[j - 1]);
                if j - 1 > 0 {
                    assert(!ts_before(s[l[0]].analyzed_at, s[l[j - 1]].analyzed_at));
                }
            } else {
                assert(r[i] == l[i - 1] && r[j] == l[j - 1]);
            }
        }
    } else {
        let t = l.drop_first();
        assert forall|i: int, j: int| 0 <= i < j < t.len() implies !ts_before(
            s[#[trigger] t[i]].analyzed_at,
            s[#[trigger] t[j]].analyzed_at,
        ) by {
            assert(t[i] == l[i + 1] && t[j] == l[j + 1]);
        }
        lemma_insert_ordered(s, t, x);
        lemma_insert_elements(s, t, x);
        let q = insert_latest_first(s, t, x);
        assert forall|i: int, j: int| 0 <= i < j < r.len() implies !ts_before(
            s[#[trigger] r[i]].analyzed_at,
            s[#[trigger] r[j]].analyzed_at,
        ) by {
            assert(r[j] == q[j - 1]);
            if i == 0 {
                assert(r[0] == l[0]);
                if q[j - 1] != x {
                    let w = choose|w: int| 0 <= w < t.len() && t[w] == q[j - 1];
                    assert(l[w + 1] == q[j - 1]);
                    assert(!ts_before(s[l[0]].analyzed_at, s[l[w + 1]].analyzed_at));
                }
            } else {
                assert(r[i] == q[i - 1]);
                assert(!ts_before(s[q[i - 1]].analyzed_at, s[q[j - 1]].analyzed_at));
            }
        }
    }
}

/// The order in which `find_all_latest` lists analyses puts later ones
/// first: no analysis is listed before one that is later than it.
pub proof fn law_latest_first_is_newest_first(s: Seq<StockAnalysis>, n: nat)
    ensures
        latest_ordered(s, latest_first(s, n)),
    decreases n,
{
    if n > 0 {
        law_latest_first_is_newest_first(s, (n - 1) as nat);
        lemma_insert_ordered(s, latest_first(s, (n - 1) as nat), n - 1);
    }
}

/// Analyses kept in memory, in the order saved.
pub struct InMemoryAnalysisRepo {
    pub data: Vec<StockAnalysis>,
}

impl InMemoryAnalysisRepo {
    /// An empty repository.
    pub fn new() -> (r: InMemoryAnalysisRepo)
        ensures
            r.data@.len() == 0,
    {
        InMemoryAnalysisRepo { data: Vec::new() }
    }

    /// Adds an analysis at the end.
    pub fn save(&mut self, analysis: &StockAnalysis) -> (r: Result<(), DomainError>)
        ensures
            r is Ok,
            final(self).data@.len() == old(self).data@.len() + 1,
            forall|i: int| 0 <= i < old(self).data@.len() ==> #[trigger] final(self).data@[i] == old(self).data@[i],
            final(self).data@.last().same_as(*analysis),
    {
        self.data.push(analysis.clone());
        Ok(())
    }

    /// The latest analysis of `symbol`, if any.
    pub fn find_latest(&self, symbol: &str) -> (r: Result<Option<StockAnalysis>, DomainError>)
        ensures
            r matches Ok(o) && match o {
                Some(a) => exists|i: int| is_latest(self.data@, symbol@, i) && a.same_as(#[trigger] self.data@[i]),
                None => forall|i: int| 0 <= i < self.data@.len() ==> (#[trigger] self.data@[i]).symbol@ != symbol@,
            },
    {
        let ghost s = self.data@;
        let mut best: Option<usize> = None;
        let mut i: usize = 0;
        while i < self.data.len()
            invariant
                s == self.data@,
                i <= s.len(),
                match best {
                    None => forall|j: int| 0 <= j < i ==> (#[trigger] s[j]).symbol@ != symbol@,
                    Some(b) => {
                        &&& b < i
                        &&& s[b as int].symbol@ == symbol@
                        &&& forall|j: int| 0 <= j < i && (#[trigger] s[j]).symbol@ == symbol@ ==> s[j].analyzed_at.le(s[b as int].analyzed_at)
                        &&& forall|j: int| b < j < i && (#[trigger] s[j]).symbol@ == symbol@ ==> ts_before(s[j].analyzed_at, s[b as int].analyzed_at)
                    },
                },
            decreases s.len() - i,
        {
            if same_text(self.data[i].symbol.as_str(), symbol) {
                match best {
                    None => {
                        best = Some(i);
                    },
                    Some(b) => {
                        if self.data[b].analyzed_at.not_after(&self.data[i].analyzed_at) {
                            best = Some(i);
                        }
                    },
                }
            }
            i = i + 1;
        }
        match best {
            None => Ok(None),
            Some(b) => {
                let a = self.data[b].clone();
                assert(is_latest(s, symbol@, b as int));
                Ok(Some(a))
            },
        }
    }

    /// The `limit` latest analyses, latest first (equally late ones in the
    /// order saved).
    pub fn find_all_latest(&self, limit: usize) -> (r: Result<Vec<StockAnalysis>, DomainError>)
        ensures
            r matches Ok(v) && {
                let order = latest_first(self.data@, self.data@.len());
                let n = if limit < self.data@.len() { limit as int } else { self.data@.len() as int };
                &&& v@.len() == n
                &&& forall|i: int| 0 <= i < n ==> (#[trigger] v@[i]).same_as(self.data@[order[i]])
            },
    {
        let ghost s = self.data@;
        let mut order: Vec<usize> = Vec::new();
        let mut i: usize = 0;
        while i < self.data.len()
            invariant
                s == self.data@,
                i <= s.len(),
                order@.map_values(|x: usize| x as int) == latest_first(s, i as nat),
                forall|j: int| 0 <= j < order@.len() ==> (#[trigger] order@[j]) < i,
                order@.len() == i,
            decreases s.len() - i,
        {
            let ghost l = order@.map_values(|x: usize| x as int);
            let t = self.data[i].analyzed_at;
            let mut p: usize = 0;
            while p < order.len()
                invariant
                    s == self.data@,
                    i < s.len(),
                    t == s[i as int].analyzed_at,
                    l == order@.map_values(|x: usize| x as int),
                    forall|j: int| 0 <= j < order@.len() ==> (#[trigger] order@[j]) < i,
                    p <= order.len(),
                    forall|j: int| 0 <= j < p ==> !ts_before(s[#[trigger] l[j]].analyzed_at, s[i as int].analyzed_at),
                ensures
                    p <= order.len(),
                    forall|j: int| 0 <= j < p ==> !ts_before(s[#[trigger] l[j]].analyzed_at, s[i as int].analyzed_at),
                    p < order.len() ==> ts_before(s[l[p as int]].analyzed_at, s[i as int].analyzed_at),
                decreases order.len() - p,
            {
                let k = order[p];
                if !t.not_after(&self.data[k].analyzed_at) {
                    break;
                }
                p = p + 1;
            }
            proof {
                lemma_insert_at(s, l, i as int, p as int);
            }
            order.insert(p, i);
            assert(order@.map_values(|x: usize| x as int) =~= l.take(p as int) + seq![i as int] + l.skip(p as int));
            assert(latest_first(s, (i + 1) as nat) == insert_latest_first(s, latest_first(s, i as nat), i as int));
            i = i + 1;
        }
        let ghost ord = latest_first(s, s.len());
        let n = if limit < self.data.len() { limit } else { self.data.len() };
        let mut out: Vec<StockAnalysis> = Vec::new();
        let mut j: usize = 0;
        while j < n
            invariant
                s == self.data@,
                n <= s.len(),
                order@.len() == s.len(),
                order@.map_values(|x: usize| x as int) == ord,
                forall|q: int| 0 <= q < order@.len() ==> (#[trigger] order@[q]) < s.len(),
                j <= n,
                out@.len() == j,
                forall|q: int| 0 <= q < j ==> (#[trigger] out@[q]).same_as(s[ord[q]]),
            decreases n - j,
        {
            let k = order[j];
            assert(ord[j as int] == k as int);
            out.push(self.data[k].clone());
            j = j + 1;
        }
        Ok(out)
    }
}

} // verus!
