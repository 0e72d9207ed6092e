//! Upstreams on their way from one installation to another.

use crate::json;
use crate::json::{Json, JsonView};
use crate::models::Upstream;
use crate::number;
use crate::table::Table;
use crate::text;
use vstd::prelude::*;

verus! {

/// The version of the export format. Later versions are refused.
pub const UPSTREAM_EXPORT_VERSION: u32 = 1;

/// An upstream with its credentials and its pricing script.
pub struct UpstreamExportItem {
    pub upstream: Upstream,
    pub credentials: Table<String>,
    pub pricing_script: Option<UpstreamPricingScriptExport>,
}

/// A pricing script as it is exported.
#[derive(Debug)]
pub struct UpstreamPricingScriptExport {
    pub enabled: bool,
    pub source: String,
}

/// Upstreams as they are exported.
pub struct UpstreamExport {
    pub version: u32,
    pub upstreams: Vec<UpstreamExportItem>,
}

impl UpstreamPricingScriptExport {
    /// A saved script as it is exported: not at all where it is switched off
    /// and empty.
    pub fn from_saved(enabled: bool, source: &str) -> (r: Option<Self>)
        ensures
            match r {
                Some(script) => (enabled || source@.len() > 0) && script.enabled == enabled
                    && script.source@ == source@,
                None => !enabled && source@.len() == 0,
            },
    {
        if !enabled && text::is_empty(source) {
            return None;
        }
        Some(UpstreamPricingScriptExport { enabled, source: source.to_string() })
    }
}

impl UpstreamExport {
    /// An export of upstreams in the present format.
    pub fn new(upstreams: Vec<UpstreamExportItem>) -> (r: Self)
        ensures
            r.version == UPSTREAM_EXPORT_VERSION,
            r.upstreams == upstreams,
    {
        UpstreamExport { version: UPSTREAM_EXPORT_VERSION, upstreams }
    }
}

/// Why an export of some version is refused.
pub open spec fn version_problem(version: u32) -> Option<Seq<char>> {
    if version > UPSTREAM_EXPORT_VERSION {
        Some("导出格式版本过高: v"@ + number::nat_text(version as nat) + ", 当前支持 v1"@)
    } else {
        None
    }
}

/// Whether an export of some version is accepted, or why not.
pub fn check_version(version: u32) -> (r: Result<(), String>)
    ensures
        match r {
            Ok(_) => version_problem(version) is None,
            Err(message) => version_problem(version) == Some(message@),
        },
{
    if version > UPSTREAM_EXPORT_VERSION {
        Err(
            text::concat3(
                "导出格式版本过高: v",
                number::u64_text(version as u64).as_str(),
                ", 当前支持 v1",
            ),
        )
    } else {
        Ok(())
    }
}

/// An export is always accepted where it was made.
pub proof fn law_own_exports_are_accepted()
    ensures
        version_problem(UPSTREAM_EXPORT_VERSION) is None,
{
}

/// The fields that stay at home: the importing side makes its own.
pub open spec fn stays_home(key: Seq<char>) -> bool {
    key == "id"@ || key == "created_at"@ || key == "updated_at"@
}

/// The fields without those that stay at home.
pub open spec fn travelling(fields: Seq<(Seq<char>, JsonView)>) -> Seq<(Seq<char>, JsonView)>
    decreases fields.len(),
{
    if fields.len() == 0 {
        fields
    } else if stays_home(fields.last().0) {
        travelling(fields.drop_last())
    } else {
        travelling(fields.drop_last()).push(fields.last())
    }
}

/// An upstream as it is exported.
pub open spec fn exported(v: JsonView) -> JsonView {
    match v {
        JsonView::Object(fields) => JsonView::Object(travelling(fields)),
        _ => v,
    }
}

/// The time that stands in for those of an imported upstream.
pub open spec fn epoch() -> JsonView {
    JsonView::Text("1970-01-01T00:00:00Z"@)
}

/// An imported upstream with stand-ins for the fields that stayed behind.
pub open spec fn importable(v: JsonView) -> JsonView {
    match v {
        JsonView::Object(fields) => JsonView::Object(
            json::with_field(
                json::with_field(
                    json::with_field(travelling(fields), "id"@, JsonView::Text(Seq::empty())),
                    "created_at"@,
                    epoch(),
                ),
                "updated_at"@,
                epoch(),
            ),
        ),
        _ => v,
    }
}

/// Takes out the fields that stay at home.
fn strip(fields: Vec<(String, Json)>) -> (r: Vec<(String, Json)>)
    ensures
        Json::Object(r).view()->Object_0 == travelling(Json::Object(fields).view()->Object_0),
{
    let ghost all = Json::Object(fields).view()->Object_0;
    let mut rest: Vec<(String, Json)> = fields;
    let mut out: Vec<(String, Json)> = Vec::new();
    let ghost mut kept: Seq<(Seq<char>, JsonView)> = Seq::empty();
    let mut i: usize = 0;
    let count: usize = rest.len();
    assert(all.take(0) =~= Seq::<(Seq<char>, JsonView)>::empty());
    while i < count
        invariant
            i <= count,
            count == all.len(),
            rest@.len() == count - i,
            forall|j: int|
                0 <= j < rest@.len() ==> (#[trigger] rest@[j]).0@ == all[i + j].0
                    && rest@[j].1.view() == all[i + j].1,
            kept == travelling(all.take(i as int)),
            Json::Object(out).view()->Object_0 == kept,
        decreases count - i,
    {
        let ghost before = rest@;
        let field: (String, Json) = rest.remove(0);
        proof {
            assert(before[0].0@ == all[i + 0].0);
            assert(all.take(i + 1).drop_last() =~= all.take(i as int));
            assert(all.take(i + 1).last() == all[i as int]);
            assert forall|j: int| 0 <= j < rest@.len() implies (#[trigger] rest@[j]).0@ == all[i + 1
                + j].0 && rest@[j].1.view() == all[i + 1 + j].1 by {
                assert(rest@[j] == before[j + 1]);
            }
        }
        if !(text::same(field.0.as_str(), "id") || text::same(field.0.as_str(), "created_at")
            || text::same(field.0.as_str(), "updated_at")) {
            out.push(field);
            proof {
                kept = kept.push(all[i as int]);
                assert(Json::Object(out).view()->Object_0 =~= kept);
            }
        }
        i = i + 1;
    }
    assert(all.take(i as int) =~= all);
    out
}

/// An upstream as it is exported: without what the importing side makes
/// itself.
pub fn exported_upstream(value: Json) -> (r: Json)
    ensures
        r.view() == exported(value.view()),
{
    match value {
        Json::Object(fields) => Json::Object(strip(fields)),
        other => other,
    }
}

/// An imported upstream with stand-ins for the fields that stayed behind.
pub fn importable_upstream(value: Json) -> (r: Json)
    ensures
        r.view() == importable(value.view()),
{
    match value {
        Json::Object(fields) => {
            let mut fields: Vec<(String, Json)> = strip(fields);
            proof {
                reveal_strlit("");
                assert(""@ =~= Seq::<char>::empty());
            }
            json::set_field(&mut fields, "id", json::text_value(""));
            json::set_field(
                &mut fields,
                "created_at",
                json::text_value("1970-01-01T00:00:00Z"),
            );
            json::set_field(
                &mut fields,
                "updated_at",
                json::text_value("1970-01-01T00:00:00Z"),
            );
            Json::Object(fields)
        },
        other => other,
    }
}

/// What stays at home is in no export.
pub proof fn law_export_leaves_identity(fields: Seq<(Seq<char>, JsonView)>, i: int)
    requires
        0 <= i < travelling(fields).len(),
    ensures
        !stays_home(travelling(fields)[i].0),
    decreases fields.len(),
{
    if fields.len() > 0 {
        let shorter = travelling(fields.drop_last());
        if i < shorter.len() {
            law_export_leaves_identity(fields.drop_last(), i);
        }
    }
}

/// The field of a name after one more has been put at the end.
proof fn lemma_pushed_field(
    fields: Seq<(Seq<char>, JsonView)>,
    last: (Seq<char>, JsonView),
    key: Seq<char>,
)
    ensures
        json::field(JsonView::Object(fields.push(last)), key) == if json::has_field(fields, key) {
            json::field(JsonView::Object(fields), key)
        } else if last.0 == key {
            Some(last.1)
        } else {
            None
        },
{
    let after = fields.push(last);
    if json::has_field(fields, key) {
        let i = choose|i: int| json::is_field(fields, key, i);
        assert(json::is_field(after, key, i)) by {
            assert forall|j: int| 0 <= j < i implies (#[trigger] after[j]).0 != key by {
                assert(fields[j].0 != key);
            }
        }
        let k = choose|k: int| json::is_field(after, key, k);
        json::lemma_field_unique(after, key, i, k);
    } else {
        json::lemma_no_field(fields, key);
        assert forall|j: int| 0 <= j < fields.len() implies (#[trigger] after[j]).0 != key by {
            assert(fields[j].0 != key);
        }
        if last.0 == key {
            assert(json::is_field(after, key, fields.len() as int));
            let k = choose|k: int| json::is_field(after, key, k);
            json::lemma_field_unique(after, key, fields.len() as int, k);
        } else if json::has_field(after, key) {
            let k = choose|k: int| json::is_field(after, key, k);
            assert(after[k].0 == key);
        }
    }
}

/// A field that travels is read as before.
proof fn lemma_travelling_field(fields: Seq<(Seq<char>, JsonView)>, key: Seq<char>)
    requires
        !stays_home(key),
    ensures
        json::field(JsonView::Object(travelling(fields)), key) == json::field(
            JsonView::Object(fields),
            key,
        ),
    decreases fields.len(),
{
    if fields.len() > 0 {
        let front = fields.drop_last();
        lemma_travelling_field(front, key);
        assert(front.push(fields.last()) =~= fields);
        lemma_pushed_field(front, fields.last(), key);
        lemma_pushed_field(travelling(front), fields.last(), key);
    }
}

/// An export that is imported says of an upstream what it said where it was
/// made, but for its identifier and its times: these are stand-ins.
pub proof fn law_import_reads_the_export(fields: Seq<(Seq<char>, JsonView)>, key: Seq<char>)
    ensures
        ({
            let imported = importable(exported(JsonView::Object(fields)));
            json::field(imported, key) == if key == "id"@ {
                Some(JsonView::Text(Seq::empty()))
            } else if key == "created_at"@ || key == "updated_at"@ {
                Some(epoch())
            } else {
                json::field(JsonView::Object(fields), key)
            }
        }),
{
    reveal_strlit("id");
    reveal_strlit("created_at");
    reveal_strlit("updated_at");
    assert("id"@.len() == 2 && "created_at"@[0] == 'c' && "updated_at"@[0] == 'u');
    assert("created_at"@.len() == 10);
    let bare = travelling(travelling(fields));
    let empty = JsonView::Text(Seq::empty());
    let a = json::with_field(bare, "id"@, empty);
    let b = json::with_field(a, "created_at"@, epoch());
    let c = json::with_field(b, "updated_at"@, epoch());
    json::law_set_then_get(bare, "id"@, empty);
    json::law_set_then_get(a, "created_at"@, epoch());
    json::law_set_then_get(b, "updated_at"@, epoch());
    if key != "updated_at"@ {
        json::law_set_keeps_others(b, "updated_at"@, epoch(), key);
        if key != "created_at"@ {
            json::law_set_keeps_others(a, "created_at"@, epoch(), key);
            if key != "id"@ {
                json::law_set_keeps_others(bare, "id"@, empty, key);
                lemma_travelling_field(travelling(fields), key);
                lemma_travelling_field(fields, key);
            }
        }
    }
}

/// An export carries every field but the identifier and the times, as it is and
/// in its order.
pub proof fn law_export_carries_the_rest(
    fields: Seq<(Seq<char>, JsonView)>,
    key: Seq<char>,
    value: JsonView,
)
    ensures
        key == "id"@ || key == "created_at"@ || key == "updated_at"@ ==> travelling(
            fields.push((key, value)),
        ) == travelling(fields),
        key != "id"@ && key != "created_at"@ && key != "updated_at"@ ==> travelling(
            fields.push((key, value)),
        ) == travelling(fields).push((key, value)),
        fields.len() == 0 ==> travelling(fields).len() == 0,
{
    assert(fields.push((key, value)).drop_last() =~= fields);
}

/// An export of this version or an earlier one is accepted, a later one is
/// refused by its number.
pub proof fn law_later_versions_are_refused(version: u32)
    ensures
        version_problem(version) is Some <==> version >= 2,
        version_problem(version) matches Some(message) ==> ("导出格式版本过高: v"@
            + number::nat_text(version as nat)).is_prefix_of(message),
{
}

} // verus!
