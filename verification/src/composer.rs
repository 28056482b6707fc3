//! Turns the display names of the zones that are due into a single
//! greeting sentence.

use vstd::prelude::*;

use crate::chars::views_of;

verus! {

/// The names joined with ", " between each pair, as in "Tokyo, Paris, Lima".
pub open spec fn join_commas(names: Seq<Seq<char>>) -> Seq<char>
    decreases names.len(),
{
    if names.len() == 0 {
        Seq::empty()
    } else if names.len() == 1 {
        names[0]
    } else {
        join_commas(names.drop_last()) + ", "@ + names.last()
    }
}

/// The greeting composed from a list of display names: absent for an empty
/// list, otherwise one sentence naming every entry, the last one introduced
/// with ", and " when there are two or more.
pub open spec fn compose_spec(names: Seq<Seq<char>>) -> Option<Seq<char>> {
    if names.len() == 0 {
        None
    } else if names.len() == 1 {
        Some("Good morning to "@ + names[0] + "!"@)
    } else {
        Some(
            "Good morning to "@ + join_commas(names.drop_last()) + ", and "@ + names.last()
                + "!"@,
        )
    }
}

/// Composes the daily greeting for the given display names; `None` when no
/// zone is due.
pub fn get_good_morning_message(cities: &Vec<String>) -> (r: Option<String>)
    ensures
        r is Some <==> cities@.len() > 0,
        r is Some ==> r->0@ == compose_spec(views_of(cities@))->0,
{
    let n = cities.len();
    if n == 0 {
        return None;
    }
    let mut s = String::from_str("Good morning to ");
    if n == 1 {
        s.append(cities[0].as_str());
        s.append("!");
        return Some(s);
    }
    s.append(cities[0].as_str());
    proof {
        assert(views_of(cities@).subrange(0, 1) =~= seq![cities@[0]@]);
    }
    let mut i: usize = 1;
    while i < n - 1
        invariant
            1 <= i <= n - 1,
            n == cities@.len(),
            s@ == "Good morning to "@ + join_commas(views_of(cities@).subrange(0, i as int)),
        decreases n - i,
    {
        s.append(", ");
        s.append(cities[i].as_str());
        proof {
            let pre = views_of(cities@).subrange(0, i as int);
            let post = views_of(cities@).subrange(0, i + 1 as int);
            assert(post.drop_last() =~= pre);
            assert(post.last() == cities@[i as int]@);
        }
        i = i + 1;
    }
    s.append(", and ");
    s.append(cities[n - 1].as_str());
    s.append("!");
    proof {
        let all = views_of(cities@);
        assert(all.drop_last() =~= all.subrange(0, n - 1 as int));
        assert(all.last() == cities@[n - 1 as int]@);
    }
    Some(s)
}

} // verus!
