//! The latest forecast of each member: a finite map from member identity to
//! forecast, kept as a list of entries in which no identity occurs twice.

use crate::team::MemberId;
use crate::weather::WeatherForecast;
use vstd::prelude::*;
use vstd::std_specs::cmp::PartialEqSpecImpl;

verus! {

/// What a contract sees of a forecast map: its entries in the order in which
/// their members were first given a forecast.
pub type Entries = Seq<(Seq<char>, WeatherForecast)>;

/// No identity occurs in two entries.
pub open spec fn distinct_ids(es: Entries) -> bool {
    forall|i: int, j: int| 0 <= i < j < es.len() ==> (#[trigger] es[i]).0 != (#[trigger] es[j]).0
}

/// Some entry is for `id`.
pub open spec fn has_id(es: Entries, id: Seq<char>) -> bool {
    exists|i: int| 0 <= i < es.len() && (#[trigger] es[i]).0 == id
}

/// An index at which `id` stands, where there is one.
pub open spec fn position(es: Entries, id: Seq<char>) -> int {
    choose|i: int| 0 <= i < es.len() && (#[trigger] es[i]).0 == id
}

/// The entries read as a map.
pub open spec fn as_map(es: Entries) -> Map<Seq<char>, WeatherForecast> {
    Map::new(|id: Seq<char>| has_id(es, id), |id: Seq<char>| es[position(es, id)].1)
}

/// The entries after `id` has been given `forecast`: its entry is
/// overwritten in place, or a new entry is appended.
pub open spec fn with_forecast(es: Entries, id: Seq<char>, forecast: WeatherForecast) -> Entries {
    if has_id(es, id) {
        es.update(position(es, id), (id, forecast))
    } else {
        es.push((id, forecast))
    }
}

/// In a list without repeated identities, an identity stands at one index
/// only.
pub proof fn position_is_unique(es: Entries, i: int)
    requires
        distinct_ids(es),
        0 <= i < es.len(),
    ensures
        has_id(es, es[i].0),
        position(es, es[i].0) == i,
{
    let p = position(es, es[i].0);
    assert(0 <= p < es.len() && es[p].0 == es[i].0);
    if p < i {
        assert(es[p].0 != es[i].0);
    }
    if i < p {
        assert(es[i].0 != es[p].0);
    }
}

/// Giving a member a forecast keeps identities distinct, and on the map it
/// is an insertion.
pub proof fn with_forecast_is_insert(es: Entries, id: Seq<char>, forecast: WeatherForecast)
    requires
        distinct_ids(es),
    ensures
        distinct_ids(with_forecast(es, id, forecast)),
        as_map(with_forecast(es, id, forecast)) == as_map(es).insert(id, forecast),
{
    let after = with_forecast(es, id, forecast);
    if has_id(es, id) {
        let p = position(es, id);
        assert(0 <= p < es.len() && es[p].0 == id);
        assert forall|i: int, j: int| 0 <= i < j < after.len() implies (#[trigger] after[i]).0 != (
        #[trigger] after[j]).0 by {
            assert(after[i].0 == es[i].0);
            assert(after[j].0 == es[j].0);
        }
        assert forall|k: Seq<char>| has_id(after, k) <==> has_id(es, k) by {
            if has_id(after, k) {
                let i = position(after, k);
                assert(es[i].0 == k);
            }
            if has_id(es, k) {
                let i = position(es, k);
                assert(after[i].0 == k);
            }
        }
        assert forall|k: Seq<char>| has_id(after, k) implies #[trigger] as_map(after)[k] == as_map(
            es,
        ).insert(id, forecast)[k] by {
            let i = position(after, k);
            assert(0 <= i < after.len() && after[i].0 == k);
            assert(es[i].0 == k);
            position_is_unique(es, i);
            if k == id {
                assert(i == p);
            }
        }
    } else {
        assert forall|i: int, j: int| 0 <= i < j < after.len() implies (#[trigger] after[i]).0 != (
        #[trigger] after[j]).0 by {
            if j == es.len() {
                assert(es[i].0 != id);
            }
        }
        assert(after[es.len() as int].0 == id);
        assert forall|k: Seq<char>| has_id(after, k) <==> (has_id(es, k) || k == id) by {
            if has_id(after, k) {
                let i = position(after, k);
                if i < es.len() {
                    assert(es[i].0 == k);
                }
            }
            if has_id(es, k) {
                let i = position(es, k);
                assert(after[i].0 == k);
            }
        }
        assert forall|k: Seq<char>| has_id(after, k) implies #[trigger] as_map(after)[k] == as_map(
            es,
        ).insert(id, forecast)[k] by {
            let i = position(after, k);
            assert(0 <= i < after.len() && after[i].0 == k);
            if i < es.len() {
                assert(es[i].0 == k);
                position_is_unique(es, i);
            }
        }
    }
    assert(as_map(after) =~= as_map(es).insert(id, forecast));
}

/// Taking one entry out of a list without repeated identities takes its
/// identity out of the map and leaves the rest.
pub proof fn removal_is_remove(es: Entries, p: int)
    requires
        distinct_ids(es),
        0 <= p < es.len(),
    ensures
        distinct_ids(es.remove(p)),
        as_map(es.remove(p)) == as_map(es).remove(es[p].0),
{
    let rest = es.remove(p);
    assert forall|i: int, j: int| 0 <= i < j < rest.len() implies (#[trigger] rest[i]).0 != (
    #[trigger] rest[j]).0 by {
        let from_i = if i < p { i } else { i + 1 };
        let from_j = if j < p { j } else { j + 1 };
        assert(rest[i] == es[from_i] && rest[j] == es[from_j]);
    }
    assert forall|k: Seq<char>| has_id(rest, k) <==> (has_id(es, k) && k != es[p].0) by {
        if has_id(rest, k) {
            let i = position(rest, k);
            let from_i = if i < p { i } else { i + 1 };
            assert(rest[i] == es[from_i]);
            assert(es[from_i].0 == k);
            if from_i < p {
                assert(es[from_i].0 != es[p].0);
            } else {
                assert(es[p].0 != es[from_i].0);
            }
        }
        if has_id(es, k) && k != es[p].0 {
            let i = position(es, k);
            let to_i = if i < p { i } else { i - 1 };
            assert(rest[to_i] == es[i]);
            assert(rest[to_i].0 == k);
        }
    }
    assert forall|k: Seq<char>| has_id(rest, k) implies #[trigger] as_map(rest)[k] == as_map(
        es,
    ).remove(es[p].0)[k] by {
        let i = position(rest, k);
        let from_i = if i < p { i } else { i + 1 };
        assert(rest[i] == es[from_i]);
        assert(es[from_i].0 == k);
        position_is_unique(es, from_i);
    }
    assert(as_map(rest) =~= as_map(es).remove(es[p].0));
}

/// The latest forecast of each member of a team.
#[derive(Debug)]
pub struct ForecastMap {
    entries: Vec<(MemberId, WeatherForecast)>,
}

impl View for ForecastMap {
    type V = Entries;

    closed spec fn view(&self) -> Entries {
        Seq::new(self.entries@.len(), |i: int| (self.entries@[i].0@, self.entries@[i].1))
    }
}

impl ForecastMap {
    /// Holds of every forecast map: no identity occurs twice in it.
    #[verifier::type_invariant]
    pub open spec fn no_identity_twice(&self) -> bool {
        distinct_ids(self@)
    }

    /// The map from identity to forecast that the entries stand for.
    pub open spec fn map(&self) -> Map<Seq<char>, WeatherForecast> {
        as_map(self@)
    }

    /// The map without entries.
    pub fn new() -> (r: Self)
        ensures
            r@ == Entries::empty(),
    {
        let r = ForecastMap { entries: Vec::new() };
        assert(r@ =~= Entries::empty());
        r
    }

    /// The number of members that have a forecast.
    pub fn len(&self) -> (n: usize)
        ensures
            n == self@.len(),
    {
        self.entries.len()
    }

    /// Whether no member has a forecast.
    pub fn is_empty(&self) -> (b: bool)
        ensures
            b == (self@.len() == 0),
    {
        self.entries.len() == 0
    }

    /// The index of the entry for `id`.
    fn find(&self, id: &MemberId) -> (r: Option<usize>)
        ensures
            match r {
                Some(i) => i < self@.len() && self@[i as int].0 == id@ && position(self@, id@) == i,
                None => !has_id(self@, id@),
            },
            r.is_some() == has_id(self@, id@),
    {
        proof {
            use_type_invariant(self);
        }
        let mut i: usize = 0;
        while i < self.entries.len()
            invariant
                i <= self.entries@.len(),
                self@.len() == self.entries@.len(),
                distinct_ids(self@),
                forall|k: int| 0 <= k < i ==> (#[trigger] self@[k]).0 != id@,
            decreases self.entries@.len() - i,
        {
            if self.entries[i].0 == *id {
                proof {
                    assert(self@[i as int].0 == id@);
                    position_is_unique(self@, i as int);
                }
                return Some(i);
            }
            i += 1;
        }
        None
    }

    /// Whether `id` has a forecast.
    pub fn contains_key(&self, id: &MemberId) -> (b: bool)
        ensures
            b == self.map().dom().contains(id@),
    {
        self.find(id).is_some()
    }

    /// The forecast of `id`, if it has one.
    pub fn get(&self, id: &MemberId) -> (r: Option<&WeatherForecast>)
        ensures
            r.is_some() == self.map().dom().contains(id@),
            r.is_some() ==> *r.unwrap() == self.map()[id@],
    {
        match self.find(id) {
            Some(i) => Some(&self.entries[i].1),
            None => None,
        }
    }

    /// The identity and the forecast of the entry at `index`.
    pub fn entry_at(&self, index: usize) -> (r: (&MemberId, &WeatherForecast))
        requires
            index < self@.len(),
        ensures
            r.0@ == self@[index as int].0,
            *r.1 == self@[index as int].1,
    {
        (&self.entries[index].0, &self.entries[index].1)
    }

    /// Gives `id` the forecast `forecast`, in place of the one it had.
    pub fn insert(&mut self, id: MemberId, forecast: WeatherForecast)
        ensures
            final(self)@ == with_forecast(old(self)@, id@, forecast),
            final(self).map() == old(self).map().insert(id@, forecast),
    {
        proof {
            use_type_invariant(&*self);
            with_forecast_is_insert(self@, id@, forecast);
        }
        let ghost before = self@;
        let ghost key = id@;
        let found = self.find(&id);
        let mut entries: Vec<(MemberId, WeatherForecast)> = Vec::new();
        core::mem::swap(&mut self.entries, &mut entries);
        match found {
            Some(i) => {
                entries.set(i, (id, forecast));
            },
            None => {
                entries.push((id, forecast));
            },
        }
        let ghost after = Seq::new(entries@.len(), |i: int| (entries@[i].0@, entries@[i].1));
        assert(after =~= with_forecast(before, key, forecast));
        self.entries = entries;
    }
}

impl Default for ForecastMap {
    fn default() -> (r: Self)
        ensures
            r@ == Entries::empty(),
    {
        ForecastMap::new()
    }
}

impl Clone for ForecastMap {
    fn clone(&self) -> (r: Self)
        ensures
            r@ == self@,
    {
        proof {
            use_type_invariant(self);
        }
        let mut entries: Vec<(MemberId, WeatherForecast)> = Vec::new();
        let mut i: usize = 0;
        while i < self.entries.len()
            invariant
                i <= self.entries@.len(),
                entries@.len() == i,
                forall|k: int|
                    0 <= k < i ==> (#[trigger] entries@[k]).0@ == self.entries@[k].0@
                        && entries@[k].1 == self.entries@[k].1,
            decreases self.entries@.len() - i,
        {
            entries.push((self.entries[i].0.clone(), self.entries[i].1));
            i += 1;
        }
        let ghost copied = Seq::new(entries@.len(), |k: int| (entries@[k].0@, entries@[k].1));
        assert(copied =~= self@);
        ForecastMap { entries }
    }
}

impl PartialEq for ForecastMap {
    /// Two forecast maps are equal when they give the same members the same
    /// forecasts, in whatever order their entries stand.
    fn eq(&self, other: &Self) -> (r: bool) {
        let forth = self.is_within(other);
        let back = other.is_within(self);
        proof {
            if forth && back {
                assert(self.map() =~= other.map());
            }
        }
        forth && back
    }
}

impl PartialEqSpecImpl for ForecastMap {
    open spec fn obeys_eq_spec() -> bool {
        true
    }

    open spec fn eq_spec(&self, other: &Self) -> bool {
        self.map() == other.map()
    }
}

impl ForecastMap {
    /// Whether every entry of `self` is an entry of `other`.
    pub fn is_within(&self, other: &Self) -> (b: bool)
        ensures
            b == self.map().submap_of(other.map()),
    {
        proof {
            use_type_invariant(self);
            use_type_invariant(other);
        }
        let mut i: usize = 0;
        while i < self.entries.len()
            invariant
                i <= self.entries@.len(),
                self@.len() == self.entries@.len(),
                distinct_ids(self@),
                forall|k: int|
                    0 <= k < i ==> other.map().dom().contains((#[trigger] self@[k]).0)
                        && other.map()[self@[k].0] == self@[k].1,
            decreases self.entries@.len() - i,
        {
            let ghost id = self@[i as int].0;
            proof {
                position_is_unique(self@, i as int);
                assert(self.map().dom().contains(id));
                assert(self.map()[id] == self@[i as int].1);
            }
            match other.get(&self.entries[i].0) {
                Some(f) => {
                    if *f != self.entries[i].1 {
                        assert(self.map()[id] != other.map()[id]);
                        return false;
                    }
                },
                None => {
                    assert(!other.map().dom().contains(id));
                    return false;
                },
            }
            i += 1;
        }
        proof {
            assert forall|id: Seq<char>| #[trigger] self.map().dom().contains(id) implies other.map().dom().contains(id)
                && self.map()[id] == other.map()[id] by {
                let p = position(self@, id);
                assert(0 <= p < self@.len() && self@[p].0 == id);
            }
        }
        true
    }
}

} // verus!
