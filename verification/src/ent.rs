//! The output of `ent -t`: a header line, then one line of comma-separated
//! values.
use vstd::prelude::*;
use crate::command::texts;
use crate::text::{split_on, split_vec, chars_of, string_of};

verus! {

/// The comma-separated fields of the second line of `ent -t` output, when
/// there is a second line.
pub open spec fn ent_fields_spec(output: Seq<char>) -> Option<Seq<Seq<char>>> {
    let lines = split_on(output, '\n');
    if lines.len() >= 2 {
        Some(split_on(lines[1], ','))
    } else {
        None
    }
}

/// The fields of the value line of `ent -t` output.
pub fn ent_fields(output: &str) -> (r: Option<Vec<String>>)
    ensures
        match r {
            Some(v) => ent_fields_spec(output@) == Some(texts(v@)),
            None => ent_fields_spec(output@) is None,
        },
{
    let chars = chars_of(output);
    let lines = split_vec(&chars, '\n');
    if lines.len() < 2 {
        return None;
    }
    let pieces = split_vec(&lines[1], ',');
    let mut fields: Vec<String> = Vec::new();
    let mut i: usize = 0;
    while i < pieces.len()
        invariant
            i <= pieces@.len(),
            pieces@.len() == split_on(lines@[1]@, ',').len(),
            forall|k: int| 0 <= k < pieces@.len() ==> #[trigger] pieces@[k]@ == split_on(lines@[1]@, ',')[k],
            texts(fields@) == split_on(lines@[1]@, ',').take(i as int),
        decreases pieces@.len() - i,
    {
        let ghost before = fields@;
        fields.push(string_of(&pieces[i]));
        assert(texts(fields@) =~= texts(before).push(pieces@[i as int]@));
        assert(split_on(lines@[1]@, ',').take(i + 1) =~= split_on(lines@[1]@, ',').take(i as int).push(
            split_on(lines@[1]@, ',')[i as int],
        ));
        i = i + 1;
    }
    assert(split_on(lines@[1]@, ',').take(i as int) =~= split_on(lines@[1]@, ','));
    Some(fields)
}

} // verus!
