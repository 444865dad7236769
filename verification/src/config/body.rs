//! The body of a section: the events between one header and the next, and what they
//! say about the values of the section.
//!
//! A value belongs to the name that stands before it. It is a single `Value` event,
//! or a run of `ValueNotDone` events that a `ValueDone` event ends, whose bytes are
//! joined. Where a name occurs more than once, the last occurrence counts.

use std::ops::Range;
use vstd::prelude::*;
use vstd::utf8::encode_utf8;
use crate::config::value::{normalize, normalized};
use crate::config::value_name::ValueName;
use crate::config::Event;

verus! {

/// The events of the body of a section.
#[derive(Clone, Debug, PartialEq, Eq, Default)]
pub struct Body(pub Vec<Event>);

/// Hands out the names and values of a body one after the other, taking them from
/// the body as it goes.
pub struct BodyIter {
    /// The events that are still to come, the next one last.
    rest: Vec<Event>,
}

/// Byte strings as mathematical values.
pub open spec fn views(all: Seq<Vec<u8>>) -> Seq<Seq<u8>> {
    all.map_values(|v: Vec<u8>| v@)
}

/// The names among `events`, in their order.
pub open spec fn names_of(events: Seq<Event>) -> Seq<ValueName>
    decreases events.len(),
{
    if events.len() == 0 {
        Seq::empty()
    } else {
        match events.last() {
            Event::SectionValueName(name) => names_of(events.drop_last()).push(name),
            _ => names_of(events.drop_last()),
        }
    }
}

/// Whether one of `events` is the name `name`.
pub open spec fn has_name(events: Seq<Event>, name: Seq<u8>) -> bool {
    exists|i: int|
        0 <= i < events.len() && (#[trigger] events[i] matches Event::SectionValueName(key) && key.is(
            name,
        ))
}

/// Reads the events before `upto` from the last to the first, up to the name `name`,
/// and gives its index with the first and the last index of the value events that
/// were passed since the last other name. `start` and `end` are those two indices as
/// far as they are known, both zero where no value event was passed yet.
///
/// A `Value` event is first and last at once. A part of a value becomes the last
/// where none is known, and the first otherwise.
pub open spec fn scan_back(events: Seq<Event>, name: Seq<u8>, upto: int, start: int, end: int) -> Option<
    (int, int, int),
>
    decreases upto,
{
    if upto <= 0 || upto > events.len() {
        None
    } else {
        let i = upto - 1;
        match events[i] {
            Event::SectionValueName(key) => if key.is(name) {
                Some((i, start, end))
            } else {
                scan_back(events, name, i, 0, 0)
            },
            Event::Value(_) => scan_back(events, name, i, i, i),
            Event::ValueNotDone(_) | Event::ValueDone(_) => if end == 0 {
                scan_back(events, name, i, start, i)
            } else {
                scan_back(events, name, i, i, end)
            },
            _ => scan_back(events, name, i, start, end),
        }
    }
}

/// What `scan_back` finds lies among the events that it was given: the name before
/// `upto`, and the value events in order and before the end of the events.
pub proof fn lemma_scan_back(events: Seq<Event>, name: Seq<u8>, upto: int, start: int, end: int)
    requires
        0 <= upto <= events.len(),
        0 <= start <= end,
        end == 0 || upto <= end < events.len(),
    ensures
        scan_back(events, name, upto, start, end) matches Some(found) ==> {
            &&& 0 <= found.0 < upto
            &&& events[found.0] matches Event::SectionValueName(key) && key.is(name)
            &&& 0 <= found.1 <= found.2 < events.len()
        },
        scan_back(events, name, upto, start, end) is None ==> !has_name(
            events.subrange(0, upto),
            name,
        ),
    decreases upto,
{
    if upto > 0 {
        let i = upto - 1;
        match events[i] {
            Event::SectionValueName(key) => {
                if !key.is(name) {
                    lemma_scan_back(events, name, i, 0, 0);
                }
            },
            Event::Value(_) => {
                lemma_scan_back(events, name, i, i, i);
            },
            Event::ValueNotDone(_) | Event::ValueDone(_) => {
                if end == 0 {
                    lemma_scan_back(events, name, i, start, i);
                } else {
                    lemma_scan_back(events, name, i, i, end);
                }
            },
            _ => {
                lemma_scan_back(events, name, i, start, end);
            },
        }
        if scan_back(events, name, upto, start, end) is None {
            let before = events.subrange(0, i);
            let now = events.subrange(0, upto);
            assert forall|k: int| 0 <= k < now.len() implies !(#[trigger] now[k] matches Event::SectionValueName(
                key,
            ) && key.is(name)) by {
                if k < i {
                    assert(before[k] == now[k]);
                }
            }
        }
    }
}

/// Where the last value named `name` stands: the indices from its name up to the end
/// of its value, and the indices of its value. The second is missing where the value
/// follows directly on the name, which is the case where the name stood alone.
pub open spec fn key_and_value_range(events: Seq<Event>, name: Seq<u8>) -> Option<
    ((int, int), Option<(int, int)>),
> {
    match scan_back(events, name, events.len() as int, 0, 0) {
        Some((key, start, end)) => Some(
            (
                (key, end + 1),
                if start != key + 1 {
                    Some((start, end + 1))
                } else {
                    None
                },
            ),
        ),
        None => None,
    }
}

/// The value that the events from `from` up to `to` hold, if they hold a whole one,
/// with `partial` holding the parts that were already passed.
pub open spec fn first_value(events: Seq<Event>, from: int, to: int, partial: Seq<u8>) -> Option<
    Seq<u8>,
>
    decreases to - from,
{
    if from < 0 || from >= to || to > events.len() {
        None
    } else {
        match events[from] {
            Event::Value(v) => Some(normalized(v@)),
            Event::ValueNotDone(v) => first_value(events, from + 1, to, partial + v@),
            Event::ValueDone(v) => Some(normalized(partial + v@)),
            _ => first_value(events, from + 1, to, partial),
        }
    }
}

/// The last value named `name`: nothing if there is no such name, nothing inside if
/// the name stands alone, and else the value if a whole one follows the name.
pub open spec fn implicit_value(events: Seq<Event>, name: Seq<u8>) -> Option<Option<Seq<u8>>> {
    match key_and_value_range(events, name) {
        None => None,
        Some((_, None)) => Some(None),
        Some((_, Some(range))) => match first_value(events, range.0, range.1, Seq::empty()) {
            Some(value) => Some(Some(value)),
            None => None,
        },
    }
}

/// The values from the event at `from` on that belong to the name `name`. `expect`
/// tells whether the name was passed and its value is still to come, and `partial`
/// holds the parts of a value that were passed.
pub open spec fn values_from(
    events: Seq<Event>,
    name: Seq<u8>,
    from: int,
    expect: bool,
    partial: Seq<u8>,
) -> Seq<Seq<u8>>
    decreases events.len() - from,
{
    if from < 0 || from >= events.len() {
        Seq::empty()
    } else {
        match events[from] {
            Event::SectionValueName(key) if key.is(name) => values_from(
                events,
                name,
                from + 1,
                true,
                partial,
            ),
            Event::Value(v) if expect => seq![normalized(v@)] + values_from(
                events,
                name,
                from + 1,
                false,
                partial,
            ),
            Event::ValueNotDone(v) if expect => values_from(events, name, from + 1, true, partial + v@),
            Event::ValueDone(v) if expect => seq![normalized(partial + v@)] + values_from(
                events,
                name,
                from + 1,
                false,
                Seq::empty(),
            ),
            _ => values_from(events, name, from + 1, expect, partial),
        }
    }
}

impl Body {
    /// The last value named `value_name`, if there is one. A name that stands alone,
    /// without `=`, has no value.
    pub fn value(&self, value_name: &str) -> (r: Option<Vec<u8>>)
        ensures
            match implicit_value(self.0@, encode_utf8(value_name@)) {
                Some(Some(value)) => r matches Some(found) && found@ == value,
                _ => r is None,
            },
    {
        match self.value_implicit(value_name) {
            Some(Some(value)) => Some(value),
            _ => None,
        }
    }

    /// The last value named `value_name`: nothing if there is no such name, and
    /// nothing inside if the name stands alone, without `=`.
    pub fn value_implicit(&self, value_name: &str) -> (r: Option<Option<Vec<u8>>>)
        ensures
            match implicit_value(self.0@, encode_utf8(value_name@)) {
                Some(Some(value)) => r matches Some(Some(found)) && found@ == value,
                Some(None) => r == Some(None::<Vec<u8>>),
                None => r is None,
            },
    {
        let key = ValueName::from_str_unchecked(value_name);
        let range = match self.key_and_value_range_by(&key) {
            None => {
                return None;
            },
            Some((_key_range, None)) => {
                return Some(None);
            },
            Some((_key_range, Some(range))) => range,
        };
        proof {
            lemma_scan_back(self.0@, key.0@, self.0@.len() as int, 0, 0);
        }
        let ghost wanted = first_value(self.0@, range.start as int, range.end as int, Seq::empty());
        assert(implicit_value(self.0@, key.0@) == match wanted {
            Some(value) => Some(Some(value)),
            None => None,
        });
        let mut concatenated: Vec<u8> = Vec::new();
        let mut i: usize = range.start;
        while i < range.end
            invariant
                range.start <= i,
                range.end <= self.0@.len(),
                key.0@ == encode_utf8(value_name@),
                implicit_value(self.0@, key.0@) == match wanted {
                    Some(value) => Some(Some(value)),
                    None => None,
                },
                wanted == first_value(self.0@, range.start as int, range.end as int, Seq::empty()),
                first_value(self.0@, range.start as int, range.end as int, Seq::empty()) == first_value(
                    self.0@,
                    i as int,
                    range.end as int,
                    concatenated@,
                ),
            decreases range.end - i,
        {
            let ghost cur = first_value(self.0@, i as int, range.end as int, concatenated@);
            let ghost old_c = concatenated@;
            match &self.0[i] {
                Event::Value(v) => {
                    return Some(Some(normalize(v.as_slice())));
                },
                Event::ValueNotDone(v) => {
                    assert(self.0@[i as int] == Event::ValueNotDone(*v));
                    assert(cur == first_value(self.0@, i + 1, range.end as int, old_c + v@));
                    concatenated.extend_from_slice(v.as_slice());
                    assert(concatenated@ == old_c + v@);
                },
                Event::ValueDone(v) => {
                    assert(self.0@[i as int] == Event::ValueDone(*v));
                    concatenated.extend_from_slice(v.as_slice());
                    assert(concatenated@ == old_c + v@);
                    return Some(Some(normalize(concatenated.as_slice())));
                },
                _ => {},
            }
            i += 1;
        }
        None
    }

    /// All values named `value_name`, in their order.
    pub fn values(&self, value_name: &str) -> (r: Vec<Vec<u8>>)
        ensures
            views(r@) == values_from(self.0@, encode_utf8(value_name@), 0, false, Seq::empty()),
    {
        let key = ValueName::from_str_unchecked(value_name);
        let ghost name = key.0@;
        let mut values: Vec<Vec<u8>> = Vec::new();
        let mut expect_value = false;
        let mut concatenated_value: Vec<u8> = Vec::new();
        let mut i: usize = 0;
        assert(views(values@) =~= Seq::<Seq<u8>>::empty());
        while i < self.0.len()
            invariant
                i <= self.0@.len(),
                name == key.0@,
                values_from(self.0@, name, 0, false, Seq::empty()) == views(values@) + values_from(
                    self.0@,
                    name,
                    i as int,
                    expect_value,
                    concatenated_value@,
                ),
            decreases self.0@.len() - i,
        {
            let ghost before = values@;
            let ghost rest = values_from(self.0@, name, i + 1, false, concatenated_value@);
            let ghost now = values_from(self.0@, name, i as int, expect_value, concatenated_value@);
            let ghost partial = concatenated_value@;
            proof {
                let event = self.0@[i as int];
                assert(now == match event {
                    Event::SectionValueName(k) if k.is(name) => values_from(
                        self.0@,
                        name,
                        i + 1,
                        true,
                        partial,
                    ),
                    Event::Value(v) if expect_value => seq![normalized(v@)] + rest,
                    Event::ValueNotDone(v) if expect_value => values_from(
                        self.0@,
                        name,
                        i + 1,
                        true,
                        partial + v@,
                    ),
                    Event::ValueDone(v) if expect_value => seq![normalized(partial + v@)] + values_from(
                        self.0@,
                        name,
                        i + 1,
                        false,
                        Seq::empty(),
                    ),
                    _ => values_from(self.0@, name, i + 1, expect_value, partial),
                });
            }
            match &self.0[i] {
                Event::SectionValueName(event_key) => {
                    if *event_key == key {
                        expect_value = true;
                    }
                },
                Event::Value(v) => {
                    if expect_value {
                        expect_value = false;
                        let value = normalize(v.as_slice());
                        values.push(value);
                        proof {
                            assert(views(values@) =~= views(before).push(value@));
                            assert(views(before) + (seq![value@] + rest) =~= views(values@) + rest);
                        }
                    }
                },
                Event::ValueNotDone(v) => {
                    if expect_value {
                        concatenated_value.extend_from_slice(v.as_slice());
                        assert(concatenated_value@ == partial + v@);
                    }
                },
                Event::ValueDone(v) => {
                    if expect_value {
                        expect_value = false;
                        concatenated_value.extend_from_slice(v.as_slice());
                        assert(concatenated_value@ == partial + v@);
                        let value = normalize(concatenated_value.as_slice());
                        values.push(value);
                        concatenated_value = Vec::new();
                        proof {
                            let rest = values_from(self.0@, name, i + 1, false, Seq::empty());
                            assert(views(values@) =~= views(before).push(value@));
                            assert(views(before) + (seq![value@] + rest) =~= views(values@) + rest);
                        }
                    }
                },
                _ => {},
            }
            i += 1;
        }
        proof {
            assert(views(values@) + Seq::<Seq<u8>>::empty() =~= views(values@));
        }
        values
    }

    /// The names of all values, in their order.
    pub fn value_names(&self) -> (r: Vec<&ValueName>)
        ensures
            r@.len() == names_of(self.0@).len(),
            forall|i: int| 0 <= i < r@.len() ==> *(#[trigger] r@[i]) == names_of(self.0@)[i],
    {
        let mut names: Vec<&ValueName> = Vec::new();
        let mut i: usize = 0;
        while i < self.0.len()
            invariant
                i <= self.0@.len(),
                names@.len() == names_of(self.0@.subrange(0, i as int)).len(),
                forall|k: int|
                    0 <= k < names@.len() ==> *(#[trigger] names@[k]) == names_of(
                        self.0@.subrange(0, i as int),
                    )[k],
            decreases self.0@.len() - i,
        {
            proof {
                assert(self.0@.subrange(0, i + 1).drop_last() =~= self.0@.subrange(0, i as int));
            }
            match &self.0[i] {
                Event::SectionValueName(name) => {
                    names.push(name);
                },
                _ => {},
            }
            i += 1;
        }
        proof {
            assert(self.0@.subrange(0, self.0@.len() as int) =~= self.0@);
        }
        names
    }

    /// Whether the section holds a value named `value_name`.
    pub fn contains_value_name(&self, value_name: &str) -> (r: bool)
        ensures
            r == has_name(self.0@, encode_utf8(value_name@)),
    {
        let key = ValueName::from_str_unchecked(value_name);
        let mut i: usize = 0;
        while i < self.0.len()
            invariant
                i <= self.0@.len(),
                key.0@ == encode_utf8(value_name@),
                forall|k: int|
                    0 <= k < i ==> !(#[trigger] self.0@[k] matches Event::SectionValueName(name)
                        && name.is(key.0@)),
            decreases self.0@.len() - i,
        {
            match &self.0[i] {
                Event::SectionValueName(name) => {
                    if *name == key {
                        assert(self.0@[i as int] matches Event::SectionValueName(found) && found.is(
                            key.0@,
                        ));
                        return true;
                    }
                },
                _ => {},
            }
            i += 1;
        }
        false
    }

    /// How many values the section holds, counting a name each time that it occurs.
    pub fn num_values(&self) -> (r: usize)
        ensures
            r == names_of(self.0@).len(),
    {
        let mut count: usize = 0;
        let mut i: usize = 0;
        while i < self.0.len()
            invariant
                i <= self.0@.len(),
                count == names_of(self.0@.subrange(0, i as int)).len(),
                count <= i,
            decreases self.0@.len() - i,
        {
            proof {
                assert(self.0@.subrange(0, i + 1).drop_last() =~= self.0@.subrange(0, i as int));
            }
            match &self.0[i] {
                Event::SectionValueName(_) => {
                    count += 1;
                },
                _ => {},
            }
            i += 1;
        }
        proof {
            assert(self.0@.subrange(0, self.0@.len() as int) =~= self.0@);
        }
        count
    }

    /// Whether the section holds no event at all, not even blanks.
    pub fn is_void(&self) -> (r: bool)
        ensures
            r == (self.0@.len() == 0),
    {
        self.0.len() == 0
    }

    /// The events of the body.
    pub fn as_ref(&self) -> (r: &[Event])
        ensures
            r@ == self.0@,
    {
        self.0.as_slice()
    }

    /// Where the last value named `value_name` stands: the range of the events from
    /// its name up to the end of its value, and the range of the events of its value.
    /// The second is missing where the value follows directly on the name, and the
    /// whole is missing where there is no such name.
    pub fn key_and_value_range_by(&self, value_name: &ValueName) -> (r: Option<
        (Range<usize>, Option<Range<usize>>),
    >)
        ensures
            match key_and_value_range(self.0@, value_name.0@) {
                Some((key, value)) => r matches Some(found) && found.0.start == key.0 && found.0.end
                    == key.1 && match value {
                    Some(range) => found.1 matches Some(values) && values.start == range.0
                        && values.end == range.1,
                    None => found.1 is None,
                },
                None => r is None,
            },
    {
        let mut start: usize = 0;
        let mut end: usize = 0;
        let mut i: usize = self.0.len();
        while i > 0
            invariant
                i <= self.0@.len() <= usize::MAX,
                start <= end,
                end == 0 || i <= end < self.0@.len(),
                scan_back(self.0@, value_name.0@, self.0@.len() as int, 0, 0) == scan_back(
                    self.0@,
                    value_name.0@,
                    i as int,
                    start as int,
                    end as int,
                ),
            decreases i,
        {
            i -= 1;
            match &self.0[i] {
                Event::SectionValueName(k) => {
                    if *k == *value_name {
                        let key_range = i..end + 1;
                        let value_range = if start != i + 1 {
                            Some(start..end + 1)
                        } else {
                            None
                        };
                        return Some((key_range, value_range));
                    }
                    start = 0;
                    end = 0;
                },
                Event::Value(_) => {
                    start = i;
                    end = i;
                },
                Event::ValueNotDone(_) | Event::ValueDone(_) => {
                    if end == 0 {
                        end = i;
                    } else {
                        start = i;
                    }
                },
                _ => {},
            }
        }
        None
    }

    /// Turns the body into the names and values that it holds, one after the other.
    pub fn into_iter(self) -> (r: BodyIter)
        ensures
            r@ == self.0@,
    {
        let mut events = self.0;
        let ghost all = events@;
        let mut rest: Vec<Event> = Vec::new();
        while events.len() > 0
            invariant
                events@.len() <= all.len(),
                events@ == all.subrange(0, events@.len() as int),
                rest@.len() + events@.len() == all.len(),
                forall|k: int| 0 <= k < rest@.len() ==> #[trigger] rest@[k] == all[all.len() - 1 - k],
            decreases events@.len(),
        {
            match events.pop() {
                Some(event) => {
                    rest.push(event);
                },
                None => {},
            }
        }
        let iter = BodyIter { rest };
        assert(iter@ =~= all);
        iter
    }
}

/// What one step of the iteration gives: the pair it hands out, if any, and how many
/// of `events` it takes, starting at `from` with the name `key` passed last and the
/// parts `partial` of a value passed.
pub open spec fn next_pair(
    events: Seq<Event>,
    from: int,
    key: Option<ValueName>,
    partial: Seq<u8>,
) -> (Option<(ValueName, Seq<u8>)>, int)
    decreases events.len() - from,
{
    if from < 0 || from >= events.len() {
        (None, events.len() as int)
    } else {
        match events[from] {
            Event::SectionValueName(name) => next_pair(events, from + 1, Some(name), partial),
            Event::Value(v) => (pair_of(key, normalized(v@)), from + 1),
            Event::ValueNotDone(v) => next_pair(events, from + 1, key, partial + v@),
            Event::ValueDone(v) => (pair_of(key, normalized(partial + v@)), from + 1),
            _ => next_pair(events, from + 1, key, partial),
        }
    }
}

/// A name and a value as a pair, if there is a name.
pub open spec fn pair_of(key: Option<ValueName>, value: Seq<u8>) -> Option<(ValueName, Seq<u8>)> {
    match key {
        Some(name) => Some((name, value)),
        None => None,
    }
}

impl View for BodyIter {
    type V = Seq<Event>;

    /// The events that are still to come, in their order.
    closed spec fn view(&self) -> Seq<Event> {
        self.rest@.reverse()
    }
}

impl BodyIter {
    /// The next name with its value, as it stands in the file and then normalized.
    /// The events up to the end of that value are taken from the iterator. Where a
    /// value has no name before it, or no value is left, nothing is handed out.
    pub fn next(&mut self) -> (r: Option<(ValueName, Vec<u8>)>)
        ensures
            match next_pair(old(self)@, 0, None, Seq::empty()).0 {
                Some(pair) => r matches Some(found) && found.0 == pair.0 && found.1@ == pair.1,
                None => r is None,
            },
            final(self)@ == old(self)@.skip(next_pair(old(self)@, 0, None, Seq::empty()).1),
    {
        let ghost all = self@;
        let mut key: Option<ValueName> = None;
        let mut partial_value: Vec<u8> = Vec::new();
        let mut value: Option<Vec<u8>> = None;
        let ghost mut taken: int = 0;
        assert(all.skip(0) =~= all);
        loop
            invariant_except_break
                value is None,
                next_pair(all, 0, None, Seq::empty()) == next_pair(all, taken, key, partial_value@),
            invariant
                0 <= taken <= all.len(),
                self@ == all.skip(taken),
            ensures
                0 <= taken <= all.len(),
                self@ == all.skip(taken),
                taken == next_pair(all, 0, None, Seq::empty()).1,
                match next_pair(all, 0, None, Seq::empty()).0 {
                    Some(pair) => key == Some(pair.0) && (value matches Some(raw) && normalized(raw@)
                        == pair.1),
                    None => key is None || value is None,
                },
            decreases all.len() - taken,
        {
            let ghost before = self.rest@;
            match self.rest.pop() {
                None => {
                    assert(self@.len() == 0);
                    break;
                },
                Some(event) => {
                    proof {
                        assert(before.reverse().len() == before.len());
                        assert(before.reverse()[0] == before[before.len() - 1]);
                        assert(all.skip(taken)[0] == all[taken]);
                        assert(event == all[taken]);
                        assert(self.rest@.reverse() =~= before.reverse().skip(1));
                        assert(all.skip(taken).skip(1) =~= all.skip(taken + 1));
                        taken = taken + 1;
                    }
                    match event {
                        Event::SectionValueName(k) => {
                            key = Some(k);
                        },
                        Event::Value(v) => {
                            value = Some(v);
                            break;
                        },
                        Event::ValueNotDone(v) => {
                            let ghost parts = partial_value@;
                            partial_value.extend_from_slice(v.as_slice());
                            assert(partial_value@ == parts + v@);
                        },
                        Event::ValueDone(v) => {
                            let ghost parts = partial_value@;
                            partial_value.extend_from_slice(v.as_slice());
                            assert(partial_value@ == parts + v@);
                            value = Some(partial_value);
                            break;
                        },
                        _ => {},
                    }
                },
            }
        }
        match (key, value) {
            (Some(name), Some(raw)) => Some((name, normalize(raw.as_slice()))),
            _ => None,
        }
    }
}

} // verus!
