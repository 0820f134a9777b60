use vstd::prelude::*;

verus! {

/// A sequence of values separated by punctuation, such as the variants of
/// an enum separated by commas: the values each followed by their separator,
/// then possibly one last value with no separator after it. When `last` is
/// `None`, the sequence is empty or ends with a trailing separator.
///
/// The separators are kept as they were written (`P` may carry their
/// source positions), so that the sequence prints again as it was read.
#[derive(Debug)]
pub struct PunctuatedShape<T, P> {
    pub inner: Vec<(T, P)>,
    pub last: Option<T>,
}

/// The values of a sequence, in order, without their separators.
pub open spec fn values_of<T, P>(inner: Seq<(T, P)>, last: Option<T>) -> Seq<T> {
    inner.map_values(|pair: (T, P)| pair.0) + match last {
        Some(value) => seq![value],
        None => Seq::empty(),
    }
}

/// The sequence `(inner, last)` after appending `values` one by one, each
/// preceded by `separator` unless the sequence is empty or already ends with
/// a separator: the old last value (if any) gets `separator`, every appended
/// value but the last gets `separator`, and the last appended value ends
/// the sequence with no separator. Appending no value changes nothing.
pub open spec fn extended<T, P>(
    inner: Seq<(T, P)>,
    last: Option<T>,
    values: Seq<T>,
    separator: P,
) -> (Seq<(T, P)>, Option<T>) {
    if values.len() == 0 {
        (inner, last)
    } else {
        let closed = match last {
            Some(value) => inner.push((value, separator)),
            None => inner,
        };
        (
            closed + values.take(values.len() - 1).map_values(|v: T| (v, separator)),
            Some(values.last()),
        )
    }
}

/// The values of a sequence are read off in order: first the value of each
/// (value, separator) pair, then the last value if there is one.
pub proof fn law_values_in_order<T, P>(inner: Seq<(T, P)>, last: Option<T>)
    ensures
        values_of(inner, last).len() == inner.len() + if last is Some { 1int } else { 0int },
        forall|k: int| 0 <= k < inner.len() ==> values_of(inner, last)[k] == (#[trigger] inner[k]).0,
        last is Some ==> values_of(inner, last)[inner.len() as int] == last->0,
{
}

/// Appending keeps what was written: the old pairs stay first, unchanged,
/// with their own separators; every pair added carries `separator`; the
/// last appended value ends the sequence; and appending nothing changes
/// nothing. With [`lemma_extended_values`] this fixes the whole result.
pub proof fn law_extended_keeps_written_separators<T, P>(
    inner: Seq<(T, P)>,
    last: Option<T>,
    values: Seq<T>,
    separator: P,
)
    ensures
        ({
            let (new_inner, new_last) = extended(inner, last, values, separator);
            &&& new_inner.len() >= inner.len()
            &&& forall|k: int| 0 <= k < inner.len() ==> #[trigger] new_inner[k] == inner[k]
            &&& forall|k: int| inner.len() <= k < new_inner.len() ==> (#[trigger] new_inner[k]).1
                == separator
            &&& values.len() > 0 ==> new_last == Some(values.last())
            &&& values.len() == 0 ==> new_inner == inner && new_last == last
        }),
{
    if values.len() > 0 {
        let closed = match last {
            Some(value) => inner.push((value, separator)),
            None => inner,
        };
        let appended = values.take(values.len() - 1).map_values(|v: T| (v, separator));
        let (new_inner, new_last) = extended(inner, last, values, separator);
        assert(new_inner == closed + appended);
        assert forall|k: int| inner.len() <= k < new_inner.len() implies (
        #[trigger] new_inner[k]).1 == separator by {
            if k < closed.len() {
                assert(closed[k] == (last->0, separator));
            } else {
                assert(new_inner[k] == appended[k - closed.len()]);
            }
        }
    }
}

/// Appending values never loses or reorders any: the values of the extended
/// sequence are the old values followed by the appended ones.
pub proof fn lemma_extended_values<T, P>(
    inner: Seq<(T, P)>,
    last: Option<T>,
    values: Seq<T>,
    separator: P,
)
    ensures
        ({
            let (new_inner, new_last) = extended(inner, last, values, separator);
            values_of(new_inner, new_last) == values_of(inner, last) + values
        }),
{
    if values.len() > 0 {
        let closed = match last {
            Some(value) => inner.push((value, separator)),
            None => inner,
        };
        let appended = values.take(values.len() - 1).map_values(|v: T| (v, separator));
        let (new_inner, new_last) = extended(inner, last, values, separator);
        assert(new_inner == closed + appended);
        assert((closed + appended).map_values(|pair: (T, P)| pair.0) =~= closed.map_values(
            |pair: (T, P)| pair.0,
        ) + values.take(values.len() - 1));
        match last {
            Some(value) => {
                assert(closed.map_values(|pair: (T, P)| pair.0) =~= inner.map_values(
                    |pair: (T, P)| pair.0,
                ) + seq![value]);
            },
            None => {},
        }
        assert(values =~= values.take(values.len() - 1) + seq![values.last()]);
        assert(values_of(new_inner, new_last) =~= values_of(inner, last) + values);
    } else {
        assert(values_of(inner, last) + values =~= values_of(inner, last));
    }
}

impl<T, P: Copy> PunctuatedShape<T, P> {
    /// The values of the sequence, in order.
    pub open spec fn values(&self) -> Seq<T> {
        values_of(self.inner@, self.last)
    }

    /// Appends `value`, first closing the current last value with
    /// `separator` if there is one.
    pub fn push(&mut self, value: T, separator: P)
        ensures
            (final(self).inner@, final(self).last) == extended(
                old(self).inner@,
                old(self).last,
                seq![value],
                separator,
            ),
    {
        let previous = self.last.take();
        match previous {
            Some(before) => {
                self.inner.push((before, separator));
            },
            None => {},
        }
        self.last = Some(value);
        proof {
            let vals = seq![value];
            assert(vals.take(0).map_values(|v: T| (v, separator)) =~= Seq::<(T, P)>::empty());
            assert(vals.last() == value);
        }
    }

    /// Appends the values of `other` (its separators are not kept), each
    /// pushed as by [`PunctuatedShape::push`] with `separator`.
    pub fn extend(&mut self, other: PunctuatedShape<T, P>, separator: P)
        ensures
            (final(self).inner@, final(self).last) == extended(
                old(self).inner@,
                old(self).last,
                other.values(),
                separator,
            ),
            final(self).values() == old(self).values() + other.values(),
    {
        let ghost start_inner = self.inner@;
        let ghost start_last = self.last;
        let ghost all = other.values();
        let PunctuatedShape { inner: mut rest, last: rest_last } = other;
        let ghost pairs = rest@;
        let ghost all_pairs_values = pairs.map_values(|pair: (T, P)| pair.0);
        proof {
            assert(all_pairs_values.take(0) =~= Seq::<T>::empty());
        }
        let total: usize = rest.len();
        let mut done: usize = 0;
        while rest.len() > 0
            invariant
                done + rest@.len() == pairs.len(),
                pairs.len() == total,
                rest@ == pairs.skip(done as int),
                all_pairs_values == pairs.map_values(|pair: (T, P)| pair.0),
                (self.inner@, self.last) == extended(
                    start_inner,
                    start_last,
                    all_pairs_values.take(done as int),
                    separator,
                ),
            decreases rest@.len(),
        {
            let (value, _) = rest.remove(0);
            proof {
                assert(value == all_pairs_values[done as int]);
            }
            self.push(value, separator);
            proof {
                lemma_extended_push(
                    start_inner,
                    start_last,
                    all_pairs_values.take(done as int),
                    value,
                    separator,
                );
                assert(all_pairs_values.take(done as int).push(value) =~= all_pairs_values.take(
                    done + 1,
                ));
                assert(rest@ =~= pairs.skip(done + 1));
            }
            done = done + 1;
        }
        proof {
            assert(all_pairs_values.take(done as int) =~= all_pairs_values);
        }
        match rest_last {
            Some(value) => {
                self.push(value, separator);
                proof {
                    lemma_extended_push(start_inner, start_last, all_pairs_values, value, separator);
                    assert(all_pairs_values.push(value) =~= all);
                }
            },
            None => {
                proof {
                    assert(all_pairs_values =~= all);
                }
            },
        }
        proof {
            lemma_extended_values(start_inner, start_last, all, separator);
        }
    }
}

/// Pushing one more value onto an extended sequence is extending by one more
/// value.
proof fn lemma_extended_push<T, P>(
    inner: Seq<(T, P)>,
    last: Option<T>,
    values: Seq<T>,
    value: T,
    separator: P,
)
    ensures
        ({
            let (mid_inner, mid_last) = extended(inner, last, values, separator);
            extended(mid_inner, mid_last, seq![value], separator) == extended(
                inner,
                last,
                values.push(value),
                separator,
            )
        }),
{
    let (mid_inner, mid_last) = extended(inner, last, values, separator);
    let longer = values.push(value);
    let one = seq![value];
    assert(one.take(0).map_values(|v: T| (v, separator)) =~= Seq::<(T, P)>::empty());
    assert(longer.last() == value);
    if values.len() == 0 {
        assert(longer.take(0) =~= Seq::<T>::empty());
        assert(longer.take(0).map_values(|v: T| (v, separator)) =~= Seq::<(T, P)>::empty());
    } else {
        let closed = match last {
            Some(v) => inner.push((v, separator)),
            None => inner,
        };
        assert(longer.take(longer.len() - 1) =~= values);
        assert(values =~= values.take(values.len() - 1).push(values.last()));
        assert(values.map_values(|v: T| (v, separator)) =~= values.take(values.len() - 1).map_values(
            |v: T| (v, separator),
        ).push((values.last(), separator)));
        assert(extended(inner, last, longer, separator).0 =~= (closed + values.take(
            values.len() - 1,
        ).map_values(|v: T| (v, separator))).push((values.last(), separator)));
    }
}

} // verus!
