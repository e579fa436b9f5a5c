//! Dotted numeric versions such as `7.4.2`, as found in Gradle distribution
//! directory names.
use vstd::prelude::*;
use crate::text::{
    IntErrorKind, chars_of, decimal_text, int_error_message, is_ascii_digit, join_spec,
    lemma_decimal_text, lemma_parse_u16_decimal_text, lemma_split_join, parse_u16, parse_u16_spec,
    split_chars, split_spec, views_of,
};

verus! {

/// How two versions compare.
#[derive(Debug, Clone, Copy, PartialEq, Eq, Structural)]
pub enum VersionOrder {
    Less,
    Equal,
    Greater,
}

/// The order with the arguments swapped.
pub open spec fn reversed(o: VersionOrder) -> VersionOrder {
    match o {
        VersionOrder::Less => VersionOrder::Greater,
        VersionOrder::Equal => VersionOrder::Equal,
        VersionOrder::Greater => VersionOrder::Less,
    }
}

/// Component-wise comparison from the left; a version that is a proper prefix
/// of another is the smaller one (`1.2` < `1.2.0`).
pub open spec fn version_order(a: Seq<u16>, b: Seq<u16>) -> VersionOrder
    decreases a.len(),
{
    if a.len() == 0 {
        if b.len() == 0 {
            VersionOrder::Equal
        } else {
            VersionOrder::Less
        }
    } else if b.len() == 0 {
        VersionOrder::Greater
    } else if a[0] < b[0] {
        VersionOrder::Less
    } else if a[0] > b[0] {
        VersionOrder::Greater
    } else {
        version_order(a.drop_first(), b.drop_first())
    }
}

/// The comparison that `SemVer::partial_cmp` makes: none for two empty
/// component lists, else `version_order`.
pub open spec fn version_partial_order(a: Seq<u16>, b: Seq<u16>) -> Option<VersionOrder> {
    if a.len() == 0 && b.len() == 0 {
        None
    } else {
        Some(version_order(a, b))
    }
}

/// Parses each item with `parse_u16_spec`, stopping at the first that fails.
pub open spec fn parse_components(items: Seq<Seq<char>>) -> Result<Seq<u16>, IntErrorKind>
    decreases items.len(),
{
    if items.len() == 0 {
        Ok(Seq::empty())
    } else {
        match parse_u16_spec(items[0]) {
            Err(e) => Err(e),
            Ok(v) => match parse_components(items.skip(1)) {
                Ok(rest) => Ok(seq![v] + rest),
                Err(e) => Err(e),
            },
        }
    }
}

/// What `SemVer::try_from` makes of `s`: the `.`-separated items of `s`, each
/// read as a `u16`.
pub open spec fn parse_version_spec(s: Seq<char>) -> Result<Seq<u16>, IntErrorKind> {
    parse_components(split_spec(s, '.'))
}

/// Why a text is not a version: one of its components is not a `u16`.
#[derive(Debug, Clone, Copy, PartialEq, Eq, Structural)]
pub struct SemVerError {
    pub kind: IntErrorKind,
}

impl SemVerError {
    /// The message that the error displays.
    pub fn description(&self) -> (r: &'static str)
        ensures
            r@ == int_error_message(self.kind),
    {
        self.kind.description()
    }
}

/// A version made of one or more `u16` components.
#[derive(Debug)]
pub struct SemVer {
    vers: Vec<u16>,
}

impl View for SemVer {
    type V = Seq<u16>;

    closed spec fn view(&self) -> Seq<u16> {
        self.vers@
    }
}

impl SemVer {
    #[verifier::type_invariant]
    spec fn has_components(self) -> bool {
        self.vers@.len() > 0
    }

    /// Reads `value` as `.`-separated `u16` components; fails on the first
    /// component that is not one.
    pub fn try_from(value: &str) -> (r: Result<SemVer, SemVerError>)
        ensures
            match parse_version_spec(value@) {
                Ok(vs) => r matches Ok(v) && v@ == vs && vs.len() > 0,
                Err(k) => r == Err::<SemVer, SemVerError>(SemVerError { kind: k }),
            },
    {
        let chars = chars_of(value);
        let items = split_chars(&chars, '.');
        let ghost all = views_of(items@);
        let mut vers: Vec<u16> = Vec::new();
        let mut i: usize = 0;
        assert(all.skip(0) =~= all);
        while i < items.len()
            invariant
                i <= items.len(),
                all == views_of(items@),
                all == split_spec(value@, '.'),
                parse_components(all) == match parse_components(all.skip(i as int)) {
                    Ok(rest) => Ok(vers@ + rest),
                    Err(e) => Err(e),
                },
            decreases items.len() - i,
        {
            assert(all.skip(i as int)[0] == items@[i as int]@);
            assert(all.skip(i as int).skip(1) =~= all.skip(i + 1));
            match parse_u16(&items[i]) {
                Err(k) => {
                    return Err(SemVerError { kind: k });
                },
                Ok(v) => {
                    let ghost before = vers@;
                    vers.push(v);
                    assert forall|rest: Seq<u16>| before + (seq![v] + rest) =~= vers@ + rest by {}
                },
            }
            i += 1;
        }
        assert(all.skip(i as int) =~= Seq::<Seq<char>>::empty());
        assert(vers@ + Seq::<u16>::empty() =~= vers@);
        proof {
            crate::text::lemma_split_nonempty(value@, '.');
            lemma_parse_components_len(all);
        }
        Ok(SemVer { vers })
    }

    /// The components of the version, in order.
    pub fn components(&self) -> (r: Vec<u16>)
        ensures
            r@ == self@,
    {
        self.vers.clone()
    }

    /// Compares two versions component by component.
    pub fn compare(&self, other: &SemVer) -> (r: Option<VersionOrder>)
        ensures
            r == version_partial_order(self@, other@),
            r is Some,
    {
        proof {
            use_type_invariant(self);
            use_type_invariant(other);
        }
        let l1 = &self.vers;
        let l2 = &other.vers;
        let n = if l1.len() > l2.len() { l1.len() } else { l2.len() };
        let mut i: usize = 0;
        assert(l1@.skip(0) =~= l1@);
        assert(l2@.skip(0) =~= l2@);
        while i < n
            invariant
                i < l1.len() || i < l2.len(),
                l1@ == self@,
                l2@ == other@,
                n == if l1.len() > l2.len() { l1.len() } else { l2.len() },
                i <= l1.len(),
                i <= l2.len(),
                l1.len() > 0,
                version_order(l1@, l2@) == version_order(l1@.skip(i as int), l2@.skip(i as int)),
            decreases n - i,
        {
            if i >= l1.len() {
                return Some(VersionOrder::Less);
            }
            if i >= l2.len() {
                return Some(VersionOrder::Greater);
            }
            if l1[i] > l2[i] {
                return Some(VersionOrder::Greater);
            }
            if l1[i] < l2[i] {
                return Some(VersionOrder::Less);
            } else {
                assert(l1@.skip(i as int)[0] == l2@.skip(i as int)[0]);
                assert(l1@.skip(i as int).drop_first() =~= l1@.skip(i + 1));
                assert(l2@.skip(i as int).drop_first() =~= l2@.skip(i + 1));
                if l1.len() == l2.len() && i == l1.len() - 1 {
                    assert(l1@.skip(i + 1).len() == 0 && l2@.skip(i + 1).len() == 0);
                    assert(version_order(l1@.skip(i + 1), l2@.skip(i + 1)) == VersionOrder::Equal);
                    return Some(VersionOrder::Equal);
                }
            }
            i += 1;
        }
        assert(false);
        None
    }
}

/// Every version compares equal to itself.
pub proof fn lemma_version_order_reflexive(a: Seq<u16>)
    ensures
        version_order(a, a) == VersionOrder::Equal,
    decreases a.len(),
{
    if a.len() > 0 {
        lemma_version_order_reflexive(a.drop_first());
    }
}

/// Two versions compare equal exactly when they have the same components.
pub proof fn lemma_version_order_equal(a: Seq<u16>, b: Seq<u16>)
    ensures
        (version_order(a, b) == VersionOrder::Equal) == (a == b),
    decreases a.len(),
{
    if a.len() == 0 && b.len() == 0 {
        assert(a =~= b);
    }
    if a == b {
        lemma_version_order_reflexive(a);
    } else if a.len() > 0 && b.len() > 0 && a[0] == b[0] {
        lemma_version_order_equal(a.drop_first(), b.drop_first());
        if a.drop_first() == b.drop_first() {
            assert(a =~= seq![a[0]] + a.drop_first());
            assert(b =~= seq![b[0]] + b.drop_first());
        }
    }
}

/// Comparing the other way round gives the reversed order.
pub proof fn lemma_version_order_antisymmetric(a: Seq<u16>, b: Seq<u16>)
    ensures
        version_order(b, a) == reversed(version_order(a, b)),
    decreases a.len(),
{
    if a.len() > 0 && b.len() > 0 && a[0] == b[0] {
        lemma_version_order_antisymmetric(a.drop_first(), b.drop_first());
    }
}

/// The order is transitive, and strictly so when either step is strict.
pub proof fn lemma_version_order_transitive(a: Seq<u16>, b: Seq<u16>, c: Seq<u16>)
    requires
        version_order(a, b) != VersionOrder::Greater,
        version_order(b, c) != VersionOrder::Greater,
    ensures
        version_order(a, c) != VersionOrder::Greater,
        (version_order(a, b) == VersionOrder::Less || version_order(b, c) == VersionOrder::Less)
            ==> version_order(a, c) == VersionOrder::Less,
    decreases a.len(),
{
    if a.len() > 0 && b.len() > 0 && c.len() > 0 && a[0] == b[0] && b[0] == c[0] {
        lemma_version_order_transitive(a.drop_first(), b.drop_first(), c.drop_first());
    }
}

proof fn lemma_parse_components_len(items: Seq<Seq<char>>)
    ensures
        parse_components(items) matches Ok(vs) ==> vs.len() == items.len(),
    decreases items.len(),
{
    if items.len() > 0 {
        lemma_parse_components_len(items.skip(1));
    }
}


/// The text of the version `v`: its components in decimal, joined by `.`.
pub open spec fn version_text_spec(v: Seq<u16>) -> Seq<char> {
    join_spec(v.map_values(|n: u16| decimal_text(n as nat)), '.')
}

proof fn lemma_parse_decimal_components(v: Seq<u16>)
    ensures
        parse_components(v.map_values(|n: u16| decimal_text(n as nat))) == Ok::<
            Seq<u16>,
            IntErrorKind,
        >(v),
    decreases v.len(),
{
    let items = v.map_values(|n: u16| decimal_text(n as nat));
    if v.len() > 0 {
        assert(items.skip(1) =~= v.skip(1).map_values(|n: u16| decimal_text(n as nat)));
        lemma_parse_decimal_components(v.skip(1));
        lemma_parse_u16_decimal_text(v[0]);
        assert(seq![v[0]] + v.skip(1) =~= v);
    } else {
        assert(v =~= Seq::<u16>::empty());
    }
}

/// Reading the dotted decimal text of a version gives its components back.
pub proof fn lemma_version_text_round_trip(v: Seq<u16>)
    requires
        v.len() > 0,
    ensures
        parse_version_spec(version_text_spec(v)) == Ok::<Seq<u16>, IntErrorKind>(v),
{
    let items = v.map_values(|n: u16| decimal_text(n as nat));
    assert forall|i: int| 0 <= i < items.len() implies !(#[trigger] items[i]).contains('.') by {
        lemma_decimal_text(v[i] as nat);
        if items[i].contains('.') {
            let k = choose|k: int| 0 <= k < items[i].len() && items[i][k] == '.';
            assert(is_ascii_digit(items[i][k]));
        }
    }
    lemma_split_join(items, '.');
    lemma_parse_decimal_components(v);
}


/// Versions are ordered by their first differing component: when `a` and
/// `b` agree on their first `k` components and both have a component `k`
/// that differs, that component decides, whatever their lengths.
pub proof fn lemma_version_order_first_difference(a: Seq<u16>, b: Seq<u16>, k: int)
    requires
        0 <= k < a.len(),
        k < b.len(),
        forall|i: int| 0 <= i < k ==> a[i] == b[i],
        a[k] != b[k],
    ensures
        version_order(a, b) == (if a[k] < b[k] {
            VersionOrder::Less
        } else {
            VersionOrder::Greater
        }),
    decreases k,
{
    if k > 0 {
        assert(a[0] == b[0]);
        let a1 = a.drop_first();
        let b1 = b.drop_first();
        assert forall|i: int| 0 <= i < k - 1 implies a1[i] == b1[i] by {
            assert(a1[i] == a[i + 1]);
            assert(b1[i] == b[i + 1]);
        }
        assert(a1[k - 1] == a[k]);
        assert(b1[k - 1] == b[k]);
        lemma_version_order_first_difference(a1, b1, k - 1);
    }
}

/// Length decides only between a version and one that extends it: a
/// proper prefix is the smaller, and the same components compare equal.
pub proof fn lemma_version_order_prefix(a: Seq<u16>, b: Seq<u16>)
    requires
        a.len() <= b.len(),
        forall|i: int| 0 <= i < a.len() ==> a[i] == b[i],
    ensures
        version_order(a, b) == (if a.len() < b.len() {
            VersionOrder::Less
        } else {
            VersionOrder::Equal
        }),
        version_order(b, a) == (if a.len() < b.len() {
            VersionOrder::Greater
        } else {
            VersionOrder::Equal
        }),
    decreases a.len(),
{
    if a.len() > 0 {
        let a1 = a.drop_first();
        let b1 = b.drop_first();
        assert(a[0] == b[0]);
        assert forall|i: int| 0 <= i < a1.len() implies a1[i] == b1[i] by {
            assert(a1[i] == a[i + 1]);
            assert(b1[i] == b[i + 1]);
        }
        lemma_version_order_prefix(a1, b1);
    }
}

} // verus!
