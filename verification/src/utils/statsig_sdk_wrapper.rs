//! The user that the proxy logs its own statistics as.

use crate::text;
use vstd::prelude::*;

verus! {

/// The ids of a user, from a list in which later ids replace earlier ones.
pub open spec fn id_map(pairs: Seq<(Seq<char>, Seq<char>)>) -> Map<Seq<char>, Seq<char>>
    decreases pairs.len(),
{
    if pairs.len() == 0 {
        Map::empty()
    } else {
        id_map(pairs.drop_last()).insert(pairs.last().0, pairs.last().1)
    }
}

/// The ids that come of names and of what the environment holds for them.
pub open spec fn resolved(
    names: Seq<(Seq<char>, Seq<char>)>,
    values: Seq<Option<String>>,
) -> Seq<(Seq<char>, Seq<char>)> {
    Seq::new(
        names.len(),
        |i: int|
            (
                names[i].0,
                if i < values.len() {
                    match values[i] {
                        Some(v) => v@,
                        None => "empty"@,
                    }
                } else {
                    "empty"@
                },
            ),
    )
}

/// Hands out the user.
pub struct StatsigUserFactory {
    custom_ids: Vec<(String, String)>,
}

impl View for StatsigUserFactory {
    type V = Map<Seq<char>, Seq<char>>;

    /// The ids of the user.
    closed spec fn view(&self) -> Map<Seq<char>, Seq<char>> {
        id_map(text::pair_texts(self.custom_ids@))
    }
}

impl StatsigUserFactory {
    /// A user whose one id is the host that the proxy runs on.
    pub fn with_hostname(hostname: &Option<String>) -> (r: Self)
        ensures
            r@ == Map::<Seq<char>, Seq<char>>::empty().insert(
                "podID"@,
                match *hostname {
                    Some(h) => h@,
                    None => "no_hostname_provided"@,
                },
            ),
    {
        let mut custom_ids: Vec<(String, String)> = Vec::new();
        let value = match hostname {
            Some(h) => h.clone(),
            None => "no_hostname_provided".to_owned(),
        };
        custom_ids.push(("podID".to_owned(), value));
        let r = StatsigUserFactory { custom_ids };
        proof {
            let pairs = text::pair_texts(r.custom_ids@);
            assert(pairs.last() == ("podID"@, value@));
            reveal_with_fuel(id_map, 2);
            assert(pairs.drop_last() =~= Seq::<(Seq<char>, Seq<char>)>::empty());
        }
        r
    }

    /// The ids of the user, of which later ones replace earlier ones.
    pub fn get(&self) -> (r: &Vec<(String, String)>)
        ensures
            id_map(text::pair_texts(r@)) == self@,
    {
        &self.custom_ids
    }

    /// Replaces the ids. Each is named together with a variable, and `values` holds
    /// what the environment has for those variables.
    pub fn set(&mut self, custom_ids: &Vec<(String, String)>, values: &Vec<Option<String>>)
        ensures
            final(self)@ == id_map(resolved(text::pair_texts(custom_ids@), values@)),
    {
        let ghost all = resolved(text::pair_texts(custom_ids@), values@);
        let mut ids: Vec<(String, String)> = Vec::new();
        let mut i: usize = 0;
        while i < custom_ids.len()
            invariant
                i <= custom_ids@.len(),
                all == resolved(text::pair_texts(custom_ids@), values@),
                text::pair_texts(ids@) == all.take(i as int),
            decreases custom_ids@.len() - i,
        {
            let ghost before = ids@;
            let value = if i < values.len() {
                match &values[i] {
                    Some(v) => v.clone(),
                    None => "empty".to_owned(),
                }
            } else {
                "empty".to_owned()
            };
            let name = custom_ids[i].0.clone();
            ids.push((name, value));
            assert(text::pair_texts(ids@) =~= text::pair_texts(before).push((name@, value@)));
            assert(all.take(i + 1) =~= all.take(i as int).push(all[i as int]));
            i += 1;
        }
        assert(all.take(i as int) =~= all);
        self.custom_ids = ids;
    }
}

/// An id has the value that was given for it last, and the ids are those that have one.
pub proof fn law_the_last_value_counts(pairs: Seq<(Seq<char>, Seq<char>)>, i: int, name: Seq<char>)
    ensures
        0 <= i < pairs.len() && (forall|j: int|
            i < j < pairs.len() ==> (#[trigger] pairs[j]).0 != pairs[i].0) ==> id_map(
            pairs,
        ).contains_pair(pairs[i].0, pairs[i].1),
        (forall|j: int| 0 <= j < pairs.len() ==> (#[trigger] pairs[j]).0 != name) ==> !id_map(
            pairs,
        ).contains_key(name),
    decreases pairs.len(),
{
    if pairs.len() > 0 {
        let short = pairs.drop_last();
        law_the_last_value_counts(short, i, name);
        assert(forall|j: int| 0 <= j < short.len() ==> short[j] == pairs[j]);
        assert(pairs[pairs.len() - 1] == pairs.last());
    }
}

/// Ids keep their names. Each has the value that was found for it, or is marked as empty.
pub proof fn law_ids_without_a_value_are_empty(
    names: Seq<(Seq<char>, Seq<char>)>,
    values: Seq<Option<String>>,
    i: int,
)
    requires
        0 <= i < names.len(),
        names.len() == values.len(),
    ensures
        resolved(names, values).len() == names.len(),
        resolved(names, values)[i].0 == names[i].0,
        values[i] matches Some(v) ==> resolved(names, values)[i].1 == v@,
        values[i] is None ==> resolved(names, values)[i].1 == "empty"@,
{
}

} // verus!
