//! Liveness and readiness probes. They answer without a credential, so they disclose nothing that
//! an anonymous caller could not already infer.

use vstd::prelude::*;

use crate::json::{Json, JsonValue};

verus! {

/// What a probe answers.
pub open spec fn probe_json(status: Seq<char>) -> Json {
    Json::Object(
        seq![("status"@, Json::Text(status)), ("service"@, Json::Text("simply_ip_sync"@))],
    )
}

fn probe_body(status: &str) -> (r: JsonValue)
    ensures
        r@ == probe_json(status@),
{
    let mut entries: Vec<(String, JsonValue)> = Vec::new();
    entries.push(("status".to_owned(), JsonValue::Text(status.to_owned())));
    entries.push(("service".to_owned(), JsonValue::Text("simply_ip_sync".to_owned())));
    let r = JsonValue::Object(entries);
    proof {
        reveal_with_fuel(<JsonValue as View>::view, 2);
        assert(r@->Object_0 =~= probe_json(status@)->Object_0);
    }
    r
}

/// Liveness. Does not depend on the database, so that an outage of it restarts nothing.
pub fn health_check() -> (r: JsonValue)
    ensures
        r@ == probe_json("ok"@),
{
    probe_body("ok")
}

/// Readiness: the database answers and the Master identity is pinned.
pub fn readiness_check(db_ok: bool, master_ready: bool) -> (r: (u16, JsonValue))
    ensures
        if db_ok && master_ready {
            r.0 == 200 && r.1@ == probe_json("ok"@)
        } else {
            r.0 == 503 && r.1@ == probe_json("not_ready"@)
        },
{
    if db_ok && master_ready {
        (200, probe_body("ok"))
    } else {
        (503, probe_body("not_ready"))
    }
}

/// A probe says its status and which service answers, and nothing else.
pub proof fn law_probes_disclose_nothing_else(status: Seq<char>)
    ensures
        probe_json(status).field("status"@) == Some(Json::Text(status)),
        probe_json(status).field("service"@) == Some(Json::Text("simply_ip_sync"@)),
        probe_json(status)->Object_0.len() == 2,
{
    reveal_strlit("status");
    reveal_strlit("service");
    assert("status"@.len() != "service"@.len());
    reveal_with_fuel(crate::json::entry_index, 3);
    let entries = probe_json(status)->Object_0;
    assert(entries.drop_last() =~= seq![("status"@, Json::Text(status))]);
    assert(entries.drop_last().drop_last() =~= Seq::<(Seq<char>, Json)>::empty());
    assert(entries.drop_last().last().0 == "status"@);
}

} // verus!
