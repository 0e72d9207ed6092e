//! Which models of which upstreams take more than text, as learnt so far.

use crate::table;
use crate::table::Table;
use vstd::prelude::*;

verus! {

/// Whether models take more than text, by upstream and model.
pub struct ModelCapabilityCache {
    pub upstreams: Table<Table<bool>>,
}

/// The entries with further ones put over them in order.
pub open spec fn extended(
    models: Map<Seq<char>, bool>,
    entries: Seq<(String, bool)>,
) -> Map<Seq<char>, bool>
    decreases entries.len(),
{
    if entries.len() == 0 {
        models
    } else {
        extended(models, entries.drop_last()).insert(entries.last().0@, entries.last().1)
    }
}

impl ModelCapabilityCache {
    /// No upstream and no model is recorded twice.
    pub open spec fn wf(&self) -> bool {
        &&& self.upstreams.wf()
        &&& forall|id: Seq<char>|
            #![trigger self.upstreams@[id]]
            self.upstreams@.contains_key(id) ==> self.upstreams@[id].wf()
    }

    /// What is known of an upstream's models.
    pub open spec fn models_of(&self, upstream_id: Seq<char>) -> Map<Seq<char>, bool> {
        if self.upstreams@.contains_key(upstream_id) {
            self.upstreams@[upstream_id]@
        } else {
            Map::empty()
        }
    }

    /// What is known of a model.
    pub open spec fn known(&self, upstream_id: Seq<char>, model: Seq<char>) -> Option<bool> {
        if self.models_of(upstream_id).contains_key(model) {
            Some(self.models_of(upstream_id)[model])
        } else {
            None
        }
    }

    /// Nothing is known.
    pub fn new() -> (r: Self)
        ensures
            r.wf(),
            forall|id: Seq<char>, model: Seq<char>| r.known(id, model) is None,
    {
        ModelCapabilityCache { upstreams: Table::new() }
    }

    /// What is known of a model.
    pub fn get(&self, upstream_id: &str, model: &str) -> (r: Option<bool>)
        requires
            self.wf(),
        ensures
            r == self.known(upstream_id@, model@),
    {
        match self.upstreams.get(upstream_id) {
            Some(models) => match models.get(model) {
                Some(multimodal) => Some(*multimodal),
                None => None,
            },
            None => None,
        }
    }

    /// Records what has been learnt of an upstream's models.
    pub fn extend(&mut self, upstream_id: &str, entries: Vec<(String, bool)>)
        requires
            old(self).wf(),
        ensures
            final(self).wf(),
            final(self).models_of(upstream_id@) == extended(
                old(self).models_of(upstream_id@),
                entries@,
            ),
            forall|id: Seq<char>|
                id != upstream_id@ ==> #[trigger] final(self).models_of(id) == old(
                    self,
                ).models_of(id),
    {
        let ghost before = self.models_of(upstream_id@);
        let mut models: Table<bool> = match self.upstreams.remove(upstream_id) {
            Some(models) => models,
            None => Table::new(),
        };
        let mut i: usize = 0;
        assert(entries@.take(0) =~= Seq::<(String, bool)>::empty());
        assert(models@ =~= before);
        while i < entries.len()
            invariant
                i <= entries@.len(),
                models.wf(),
                models@ == extended(before, entries@.take(i as int)),
            decreases entries@.len() - i,
        {
            assert(entries@.take(i + 1).drop_last() =~= entries@.take(i as int));
            models.insert(entries[i].0.clone(), entries[i].1);
            i = i + 1;
        }
        assert(entries@.take(i as int) =~= entries@);
        self.upstreams.insert(upstream_id.to_string(), models);
    }
}

/// Of what was learnt of a model, the last holds; of a model of which nothing
/// was learnt, what was known stays.
pub proof fn law_last_entry_holds(
    models: Map<Seq<char>, bool>,
    entries: Seq<(String, bool)>,
    model: Seq<char>,
)
    ensures
        (forall|i: int| 0 <= i < entries.len() ==> (#[trigger] entries[i]).0@ != model) ==> {
            &&& extended(models, entries).contains_key(model) == models.contains_key(model)
            &&& extended(models, entries)[model] == models[model]
        },
        forall|i: int|
            #![trigger entries[i]]
            0 <= i < entries.len() && entries[i].0@ == model && (forall|j: int|
                i < j < entries.len() ==> (#[trigger] entries[j]).0@ != model) ==> extended(
                models,
                entries,
            ).contains_key(model) && extended(models, entries)[model] == entries[i].1,
    decreases entries.len(),
{
    if entries.len() > 0 {
        let front = entries.drop_last();
        law_last_entry_holds(models, front, model);
        assert forall|i: int|
            #![trigger entries[i]]
            0 <= i < entries.len() && entries[i].0@ == model && (forall|j: int|
                i < j < entries.len() ==> (#[trigger] entries[j]).0@ != model) implies extended(
            models,
            entries,
        ).contains_key(model) && extended(models, entries)[model] == entries[i].1 by {
            if i < entries.len() - 1 {
                assert(entries[entries.len() - 1].0@ != model);
                assert(front[i] == entries[i]);
                assert forall|j: int| i < j < front.len() implies (#[trigger] front[j]).0@
                    != model by {
                    assert(front[j] == entries[j]);
                }
            }
        }
        if forall|i: int| 0 <= i < entries.len() ==> (#[trigger] entries[i]).0@ != model {
            assert forall|i: int| 0 <= i < front.len() implies (#[trigger] front[i]).0@
                != model by {
                assert(front[i] == entries[i]);
            }
            assert(entries[entries.len() - 1].0@ != model);
        }
    }
}

/// What is shown of a model's input.
pub fn model_modality_label(
    cache: &ModelCapabilityCache,
    upstream_id: Option<&str>,
    model: Option<&str>,
) -> (r: &'static str)
    requires
        cache.wf(),
    ensures
        r@ == match model {
            Some(model) => match cache.known(
                match upstream_id {
                    Some(id) => id@,
                    None => Seq::empty(),
                },
                model@,
            ) {
                Some(multimodal) => if model@.len() == 0 {
                    "未知"@
                } else if multimodal {
                    "多模态"@
                } else {
                    "文本"@
                },
                None => "未知"@,
            },
            None => "未知"@,
        },
{
    let model: &str = match model {
        Some(model) => model,
        None => {
            return "未知";
        },
    };
    if crate::text::is_empty(model) {
        return "未知";
    }
    let known: Option<bool> = match upstream_id {
        Some(id) => cache.get(id, model),
        None => cache.get("", model),
    };
    proof {
        reveal_strlit("");
        assert(""@ =~= Seq::<char>::empty());
    }
    match known {
        Some(true) => "多模态",
        Some(false) => "文本",
        None => "未知",
    }
}

/// What is known of a model is known under its upstream and its name alone.
pub proof fn law_models_are_known_by_upstream(
    a: &ModelCapabilityCache,
    b: &ModelCapabilityCache,
    upstream_id: Seq<char>,
    model: Seq<char>,
)
    requires
        a.models_of(upstream_id) == b.models_of(upstream_id),
    ensures
        a.known(upstream_id, model) == b.known(upstream_id, model),
        a.known(upstream_id, model) is Some <==> a.models_of(upstream_id).contains_key(model),
        a.known(upstream_id, model) matches Some(multimodal) ==> multimodal == a.models_of(
            upstream_id,
        )[model],
        !a.upstreams@.contains_key(upstream_id) ==> a.known(upstream_id, model) is None,
{
}

} // verus!
