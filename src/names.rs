use vstd::prelude::*;

verus! {

/// No name occurs twice.
pub open spec fn distinct(names: Seq<Seq<char>>) -> bool {
    forall|i: int, j: int| 0 <= i < j < names.len() ==> names[i] != names[j]
}

/// The views of a sequence of strings.
pub open spec fn names_view(v: Seq<String>) -> Seq<Seq<char>> {
    v.map_values(|s: String| s@)
}

/// The names in order of first mention, each once.
pub open spec fn dedup_names(s: Seq<Seq<char>>) -> Seq<Seq<char>>
    decreases s.len(),
{
    if s.len() == 0 {
        Seq::empty()
    } else {
        let d = dedup_names(s.drop_last());
        if d.contains(s.last()) {
            d
        } else {
            d.push(s.last())
        }
    }
}

fn contains_name(names: &Vec<String>, name: &String) -> (r: bool)
    ensures
        r == names_view(names@).contains(name@),
{
    let mut i: usize = 0;
    while i < names.len()
        invariant
            i <= names@.len(),
            forall|k: int| 0 <= k < i ==> names@[k]@ != name@,
        decreases names@.len() - i,
    {
        if names[i] == *name {
            assert(names_view(names@)[i as int] == name@);
            return true;
        }
        i += 1;
    }
    proof {
        if names_view(names@).contains(name@) {
            let k = choose|k: int| 0 <= k < names_view(names@).len() && names_view(names@)[k] == name@;
            assert(names@[k]@ == name@);
        }
    }
    false
}

/// Appends `name` unless it is already there.
pub fn add_watched(names: &mut Vec<String>, name: String)
    requires
        distinct(names_view(old(names)@)),
    ensures
        distinct(names_view(final(names)@)),
        names_view(old(names)@).contains(name@) ==> final(names)@ == old(names)@,
        !names_view(old(names)@).contains(name@) ==> final(names)@ == old(names)@.push(name),
{
    if !contains_name(names, &name) {
        let ghost before = names_view(names@);
        names.push(name);
        assert(names_view(names@) =~= before.push(name@));
    }
}

/// `names` in order of first mention, each once.
pub fn unique_names(names: &Vec<String>) -> (r: Vec<String>)
    ensures
        names_view(r@) == dedup_names(names_view(names@)),
        distinct(names_view(r@)),
{
    let mut out: Vec<String> = Vec::new();
    let mut i: usize = 0;
    while i < names.len()
        invariant
            i <= names@.len(),
            distinct(names_view(out@)),
            names_view(out@) == dedup_names(names_view(names@).take(i as int)),
        decreases names@.len() - i,
    {
        let ghost before = out@;
        add_watched(&mut out, names[i].clone());
        proof {
            let s = names_view(names@).take(i + 1 as int);
            assert(s.drop_last() =~= names_view(names@).take(i as int));
            assert(s.last() == names@[i as int]@);
            if !names_view(before).contains(names@[i as int]@) {
                assert(names_view(out@) =~= names_view(before).push(names@[i as int]@));
            }
        }
        i += 1;
    }
    assert(names_view(names@).take(i as int) =~= names_view(names@));
    out
}

} // verus!
