use vstd::prelude::*;
use crate::text::{to_upper, upper_of};

verus! {

/// What processing a file's text gives: the text in upper case.
pub fn process_code(code: &str) -> (r: String)
    ensures
        r@ == upper_of(code@),
{
    to_upper(code)
}

/// The labels of the files that could be read, in their order: `처리됨: <path>`.
pub open spec fn processed_labels(paths: Seq<String>, readable: Seq<bool>) -> Seq<Seq<char>>
    decreases paths.len(),
{
    if paths.len() == 0 || readable.len() != paths.len() {
        Seq::empty()
    } else if readable.last() {
        processed_labels(paths.drop_last(), readable.drop_last()).push(
            "처리됨: "@ + paths.last()@,
        )
    } else {
        processed_labels(paths.drop_last(), readable.drop_last())
    }
}

/// Labels each path whose file could be read (`readable[i]`), in order.
pub fn label_processed(paths: &Vec<String>, readable: &Vec<bool>) -> (r: Vec<String>)
    requires
        paths@.len() == readable@.len(),
    ensures
        r@.map_values(|s: String| s@) == processed_labels(paths@, readable@),
{
    let mut r: Vec<String> = Vec::new();
    let mut i: usize = 0;
    while i < paths.len()
        invariant
            i <= paths@.len(),
            paths@.len() == readable@.len(),
            r@.map_values(|s: String| s@) == processed_labels(
                paths@.subrange(0, i as int),
                readable@.subrange(0, i as int),
            ),
        decreases paths@.len() - i,
    {
        assert(paths@.subrange(0, i + 1).drop_last() =~= paths@.subrange(0, i as int));
        assert(readable@.subrange(0, i + 1).drop_last() =~= readable@.subrange(0, i as int));
        let ghost before = r@;
        if readable[i] {
            let mut label = String::from_str("처리됨: ");
            label.append(paths[i].as_str());
            r.push(label);
            assert(r@.map_values(|s: String| s@) =~= before.map_values(|s: String| s@).push(
                "처리됨: "@ + paths@[i as int]@,
            ));
        }
        i = i + 1;
    }
    assert(paths@.subrange(0, i as int) =~= paths@);
    assert(readable@.subrange(0, i as int) =~= readable@);
    r
}

} // verus!
