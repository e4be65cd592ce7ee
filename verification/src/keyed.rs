use vstd::prelude::*;

verus! {

/// The position of the first entry of `entries` under `key`, or the number
/// of entries when there is none.
pub open spec fn position_of<V>(entries: Seq<(Seq<char>, V)>, key: Seq<char>) -> int
    decreases entries.len(),
{
    if entries.len() == 0 {
        0
    } else if entries[0].0 == key {
        0
    } else {
        1 + position_of(entries.drop_first(), key)
    }
}

/// What `entries` holds under `key`: the value of the first entry with that
/// key.
pub open spec fn value_of<V>(entries: Seq<(Seq<char>, V)>, key: Seq<char>) -> Option<V> {
    let at = position_of(entries, key);
    if at < entries.len() {
        Some(entries[at].1)
    } else {
        None
    }
}

/// `entries` after `value` was written under `key`: the entry that counted
/// is replaced, and where there was none a new entry comes last.
pub open spec fn with_entry<V>(entries: Seq<(Seq<char>, V)>, key: Seq<char>, value: V) -> Seq<
    (Seq<char>, V),
> {
    let at = position_of(entries, key);
    if at < entries.len() {
        entries.update(at, (key, value))
    } else {
        entries.push((key, value))
    }
}

/// `entries` after each entry of `more` was written in turn.
pub open spec fn with_entries<V>(entries: Seq<(Seq<char>, V)>, more: Seq<(Seq<char>, V)>) -> Seq<
    (Seq<char>, V),
>
    decreases more.len(),
{
    if more.len() == 0 {
        entries
    } else {
        with_entry(with_entries(entries, more.drop_last()), more.last().0, more.last().1)
    }
}

/// No two entries share a key.
pub open spec fn distinct_keys<V>(entries: Seq<(Seq<char>, V)>) -> bool {
    forall|i: int, j: int|
        0 <= i < j < entries.len() ==> (#[trigger] entries[i]).0 != (#[trigger] entries[j]).0
}

/// The position of the first entry under `key` lies within the entries or
/// just behind them; no entry before it has that key, and the entry at it
/// has.
pub proof fn lemma_position_of<V>(entries: Seq<(Seq<char>, V)>, key: Seq<char>)
    ensures
        0 <= position_of(entries, key) <= entries.len(),
        forall|i: int| 0 <= i < position_of(entries, key) ==> (#[trigger] entries[i]).0 != key,
        position_of(entries, key) < entries.len() ==> entries[position_of(entries, key)].0 == key,
    decreases entries.len(),
{
    if entries.len() > 0 && entries[0].0 != key {
        let rest = entries.drop_first();
        lemma_position_of(rest, key);
        assert forall|i: int| 0 <= i < position_of(entries, key) implies (#[trigger] entries[i]).0
            != key by {
            if i > 0 {
                assert(entries[i] == rest[i - 1]);
            }
        }
    }
}

/// A position with the key, before which no entry has it, is the first
/// position under the key.
pub proof fn lemma_position_found<V>(entries: Seq<(Seq<char>, V)>, key: Seq<char>, at: int)
    requires
        0 <= at <= entries.len(),
        forall|i: int| 0 <= i < at ==> (#[trigger] entries[i]).0 != key,
        at < entries.len() ==> entries[at].0 == key,
    ensures
        position_of(entries, key) == at,
    decreases entries.len(),
{
    if entries.len() > 0 && at > 0 {
        let rest = entries.drop_first();
        assert(entries[0].0 != key);
        assert forall|i: int| 0 <= i < at - 1 implies (#[trigger] rest[i]).0 != key by {
            assert(rest[i] == entries[i + 1]);
        }
        lemma_position_found(rest, key, at - 1);
    }
}

/// Writing under one key changes what is read under that key, and under no
/// other.
pub proof fn lemma_value_of_with_entry<V>(
    entries: Seq<(Seq<char>, V)>,
    key: Seq<char>,
    value: V,
    other: Seq<char>,
)
    ensures
        value_of(with_entry(entries, key, value), other) == if other == key {
            Some(value)
        } else {
            value_of(entries, other)
        },
{
    let after = with_entry(entries, key, value);
    let at = position_of(entries, key);
    let at_other = position_of(entries, other);
    lemma_position_of(entries, key);
    lemma_position_of(entries, other);
    if other == key {
        lemma_position_found(after, key, at);
    } else {
        assert forall|i: int| 0 <= i < at_other implies (#[trigger] after[i]).0 != other by {
            if i < entries.len() && i != at {
                assert(after[i] == entries[i]);
            }
        }
        if at_other < entries.len() {
            assert(at_other != at);
            lemma_position_found(after, other, at_other);
        } else {
            lemma_position_found(after, other, after.len() as int);
        }
    }
}

/// Writing an entry keeps the keys distinct.
pub proof fn lemma_with_entry_keeps_distinct<V>(
    entries: Seq<(Seq<char>, V)>,
    key: Seq<char>,
    value: V,
)
    requires
        distinct_keys(entries),
    ensures
        distinct_keys(with_entry(entries, key, value)),
{
    let after = with_entry(entries, key, value);
    let at = position_of(entries, key);
    lemma_position_of(entries, key);
    assert forall|i: int, j: int| 0 <= i < j < after.len() implies (#[trigger] after[i]).0 != (
    #[trigger] after[j]).0 by {
        if at < entries.len() {
            if i != at && j != at {
                assert(after[i] == entries[i] && after[j] == entries[j]);
            } else if i == at {
                assert(after[j] == entries[j]);
                assert(entries[at].0 != entries[j].0);
            } else {
                assert(after[i] == entries[i]);
                assert(entries[i].0 != entries[at].0);
            }
        } else {
            if j < entries.len() {
                assert(after[i] == entries[i] && after[j] == entries[j]);
            } else {
                assert(after[i] == entries[i]);
            }
        }
    }
}

} // verus!
