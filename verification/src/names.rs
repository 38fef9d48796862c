use vstd::prelude::*;

verus! {

/// The names held by a list of strings, as a set of character sequences.
pub open spec fn name_set(list: Seq<Seq<char>>) -> Set<Seq<char>> {
    list.to_set()
}

/// Returns whether `list` holds a string equal to `name`.
pub fn contains_name(list: &Vec<String>, name: &String) -> (r: bool)
    ensures
        r == list.deep_view().contains(name@),
{
    let mut i: usize = 0;
    while i < list.len()
        invariant
            0 <= i <= list.len(),
            forall|k: int| 0 <= k < i ==> list.deep_view()[k] != name@,
        decreases list.len() - i,
    {
        if list[i] == *name {
            assert(list.deep_view()[i as int] == name@);
            return true;
        }
        i += 1;
    }
    false
}

/// Copies a string, keeping its characters.
pub fn copy_string(s: &String) -> (r: String)
    ensures
        r@ == s@,
{
    s.clone()
}

/// Turns a string slice into an owned string with the same characters.
pub fn owned(s: &str) -> (r: String)
    ensures
        r@ == s@,
{
    let r = s.to_string();
    proof {
        vstd::string::to_string_from_display_ensures_for_str(s, r);
    }
    r
}

/// Copies a list of strings element by element.
pub fn copy_names(list: &Vec<String>) -> (r: Vec<String>)
    ensures
        r.deep_view() == list.deep_view(),
{
    let mut r: Vec<String> = Vec::new();
    let mut i: usize = 0;
    while i < list.len()
        invariant
            0 <= i <= list.len(),
            r.deep_view() == list.deep_view().take(i as int),
        decreases list.len() - i,
    {
        let s = list[i].clone();
        assert(s@ == list.deep_view()[i as int]);
        let ghost before = r.deep_view();
        r.push(s);
        assert(r.deep_view() =~= before.push(list.deep_view()[i as int]));
        assert(r.deep_view() =~= list.deep_view().take(i as int + 1));
        i += 1;
    }
    assert(list.deep_view().take(list.len() as int) =~= list.deep_view());
    r
}

} // verus!
