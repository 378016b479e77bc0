//! Which model a new chat opens on.
use vstd::prelude::*;
use crate::text::{chars_of, contains_exec, contains_seq, lower_all, lower_chars};

verus! {

/// A row of a harness's model catalog, as far as the choice reads it.
#[derive(Debug, Clone, PartialEq, Eq)]
pub struct Model {
    pub id: String,
    pub label: String,
    pub description: Option<String>,
}

/// An Opus model, by its id in any case.
pub open spec fn is_opus_spec(m: Model) -> bool {
    contains_seq(lower_all(m.id@), "opus"@)
}

/// The index of the first Opus row.
pub open spec fn first_opus(models: Seq<Model>) -> Option<int>
    decreases models.len(),
{
    if models.len() == 0 {
        None
    } else {
        match first_opus(models.drop_last()) {
            Some(i) => Some(i),
            None => if is_opus_spec(models.last()) {
                Some(models.len() - 1)
            } else {
                None
            },
        }
    }
}

/// The row a new chat opens on: the first Opus row wherever it sits in the
/// catalog, else the first row, else none.
pub open spec fn default_model_index(models: Seq<Model>) -> Option<int> {
    match first_opus(models) {
        Some(i) => Some(i),
        None => if models.len() > 0 {
            Some(0)
        } else {
            None
        },
    }
}

fn is_opus(model: &Model) -> (r: bool)
    ensures
        r == is_opus_spec(*model),
{
    contains_exec(lower_chars(chars_of(model.id.as_str()).as_slice()).as_slice(), chars_of("opus").as_slice())
}

proof fn lemma_first_opus_prefix(s: Seq<Model>, k: int)
    requires
        0 <= k <= s.len(),
        first_opus(s.take(k)) is Some,
    ensures
        first_opus(s) == first_opus(s.take(k)),
    decreases s.len() - k,
{
    if k < s.len() {
        assert(s.drop_last().take(k) == s.take(k));
        lemma_first_opus_prefix(s.drop_last(), k);
    } else {
        assert(s.take(k) == s);
    }
}

/// The model a new chat opens on.
pub fn default_model(models: &[Model]) -> (r: Option<&Model>)
    ensures
        match default_model_index(models@) {
            Some(i) => r matches Some(m) && *m == models@[i],
            None => r is None,
        },
{
    let mut i: usize = 0;
    while i < models.len()
        invariant
            i <= models@.len(),
            first_opus(models@.take(i as int)) is None,
        decreases models@.len() - i,
    {
        assert(models@.take(i + 1).drop_last() == models@.take(i as int));
        assert(models@.take(i + 1).last() == models@[i as int]);
        if is_opus(&models[i]) {
            proof {
                lemma_first_opus_prefix(models@, i + 1);
            }
            return Some(&models[i]);
        }
        i += 1;
    }
    assert(models@.take(models@.len() as int) == models@);
    if models.len() > 0 {
        Some(&models[0])
    } else {
        None
    }
}

} // verus!
