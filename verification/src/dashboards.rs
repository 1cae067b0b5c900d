//! The memory dashboard: its request defaults and table names, the personas
//! it offers, and the checks on facts added, items edited and stores reset.
use crate::api::{api_error_is, ApiError, BAD_REQUEST, CONFLICT, NOT_FOUND};
use crate::text::{
    chars_eq, chars_of, lemma_lex_antisym, lemma_lex_total, lemma_lex_trans, lex_le, lex_le_chars, str_eq,
    string_of, string_views, trim_seq, trim_string, trimmed,
};
use vstd::prelude::*;

verus! {

/// The two tables of a memory store the dashboard can browse.
#[derive(PartialEq, Eq, Structural, Clone, Copy, Debug)]
pub enum BrowseTable {
    Facts,
    Episodes,
}

/// The table a browse request reads when it names none.
pub fn default_table() -> (r: String)
    ensures
        r@ == "facts"@,
{
    "facts".to_owned()
}

/// The page size of a browse request that sets none.
pub fn default_limit() -> (r: usize)
    ensures
        r == 50,
{
    50
}

/// A table name: `facts` or `episodes`; anything else is refused with
/// `400 table must be facts or episodes`.
pub fn parse_table(value: &str) -> (r: Result<BrowseTable, ApiError>)
    ensures
        value@ == "facts"@ ==> r == Ok::<BrowseTable, ApiError>(BrowseTable::Facts),
        value@ == "episodes"@ ==> r == Ok::<BrowseTable, ApiError>(BrowseTable::Episodes),
        value@ != "facts"@ && value@ != "episodes"@ ==> r is Err && r->Err_0.status == BAD_REQUEST
            && r->Err_0.message@ == "table must be facts or episodes"@,
{
    proof {
        reveal_strlit("facts");
        reveal_strlit("episodes");
        assert("facts"@.len() != "episodes"@.len());
    }
    if str_eq(value, "facts") {
        Ok(BrowseTable::Facts)
    } else if str_eq(value, "episodes") {
        Ok(BrowseTable::Episodes)
    } else {
        Err(ApiError::new(BAD_REQUEST, "table must be facts or episodes"))
    }
}


/// Every name is below the names after it: ascending, without repeats.
pub open spec fn strictly_sorted(v: Seq<Seq<char>>) -> bool {
    forall|p: int, q: int| 0 <= p < q < v.len() ==> lex_le(#[trigger] v[p], #[trigger] v[q]) && v[p] != v[q]
}

fn insert_name(out: &mut Vec<String>, x: &str)
    requires
        strictly_sorted(string_views(old(out)@)),
    ensures
        strictly_sorted(string_views(final(out)@)),
        forall|n: Seq<char>|
            #[trigger] string_views(final(out)@).contains(n) <==> (string_views(old(out)@).contains(n) || n == x@),
{
    let ghost s = string_views(out@);
    let xv = chars_of(x);
    let mut j: usize = 0;
    while j < out.len() && !lex_le_chars(&xv, &chars_of(out[j].as_str()))
        invariant
            j <= out.len(),
            s == string_views(out@),
            xv@ == x@,
            forall|k: int| 0 <= k < j ==> lex_le(#[trigger] s[k], x@) && s[k] != x@,
        decreases out.len() - j,
    {
        assert(s[j as int] == out@[j as int]@);
        proof {
            lemma_lex_total(x@, s[j as int]);
        }
        j += 1;
    }
    proof {
        if j < out.len() {
            assert(s[j as int] == out@[j as int]@);
        }
    }
    if j < out.len() && str_eq(out[j].as_str(), x) {
        assert(s[j as int] == x@);
        return;
    }
    let ghost sj = if j < s.len() { s[j as int] } else { x@ };
    out.insert(j, x.to_string());
    proof {
        let r = string_views(out@);
        assert(r =~= s.insert(j as int, x@));
        assert forall|p: int, q: int| 0 <= p < q < r.len() implies lex_le(#[trigger] r[p], #[trigger] r[q]) && r[p] != r[q] by {
            if q < j {
                assert(r[p] == s[p] && r[q] == s[q]);
            } else if q == j {
                assert(r[p] == s[p]);
            } else if p < j {
                assert(r[p] == s[p] && r[q] == s[q - 1]);
            } else if p == j {
                assert(r[q] == s[q - 1]);
                assert(lex_le(x@, sj) && sj != x@);
                if q - 1 > j {
                    assert(lex_le(sj, s[q - 1]) && sj != s[q - 1]);
                    lemma_lex_trans(x@, sj, s[q - 1]);
                    if x@ == s[q - 1] {
                        lemma_lex_antisym(x@, sj);
                    }
                }
            } else {
                assert(r[p] == s[p - 1] && r[q] == s[q - 1]);
            }
        }
        assert forall|n: Seq<char>| #[trigger] r.contains(n) <==> (s.contains(n) || n == x@) by {
            if r.contains(n) {
                let k = choose|k: int| 0 <= k < r.len() && r[k] == n;
                if k < j {
                    assert(s[k] == n);
                } else if k > j {
                    assert(s[k - 1] == n);
                }
            }
            if s.contains(n) {
                let k = choose|k: int| 0 <= k < s.len() && s[k] == n;
                if k < j {
                    assert(r[k] == n);
                } else {
                    assert(r[k + 1] == n);
                }
            }
            if n == x@ {
                assert(r[j as int] == n);
            }
        }
    }
}

/// The personas the admin's memory page offers: the active persona and
/// every persona with a memory store, each once, in ascending order.
pub fn memory_persona_names(active: &str, stored: &Vec<String>) -> (r: Vec<String>)
    ensures
        strictly_sorted(string_views(r@)),
        forall|n: Seq<char>| #[trigger] string_views(r@).contains(n) <==> (n == active@ || string_views(stored@).contains(n)),
{
    let mut out: Vec<String> = Vec::new();
    assert(string_views(out@) =~= Seq::<Seq<char>>::empty());
    insert_name(&mut out, active);
    let mut i: usize = 0;
    while i < stored.len()
        invariant
            i <= stored.len(),
            strictly_sorted(string_views(out@)),
            forall|n: Seq<char>|
                #[trigger] string_views(out@).contains(n) <==> (n == active@ || string_views(stored@).take(i as int).contains(n)),
        decreases stored.len() - i,
    {
        let ghost before = string_views(out@);
        insert_name(&mut out, stored[i].as_str());
        proof {
            let t = string_views(stored@).take(i + 1);
            assert(t =~= string_views(stored@).take(i as int).push(stored@[i as int]@));
            assert forall|n: Seq<char>| #[trigger] string_views(out@).contains(n) <==> (n == active@ || t.contains(n)) by {
                if t.contains(n) && n != stored@[i as int]@ {
                    let k = choose|k: int| 0 <= k < t.len() && t[k] == n;
                    assert(string_views(stored@).take(i as int)[k] == n);
                }
                if string_views(stored@).take(i as int).contains(n) {
                    let k = choose|k: int| 0 <= k < i && string_views(stored@).take(i as int)[k] == n;
                    assert(t[k] == n);
                }
                if n == stored@[i as int]@ {
                    assert(t[i as int] == n);
                }
            }
        }
        i += 1;
    }
    assert(string_views(stored@).take(stored.len() as int) =~= string_views(stored@));
    out
}

/// A fact added by hand: its content trimmed, of 1 to 4000 characters, and
/// its source trimmed, `dashboard` when absent or blank.
pub open spec fn fact_request(content: Seq<char>, source: Option<Seq<char>>) -> Result<(Seq<char>, Seq<char>), (u16, Seq<char>)> {
    let c = trim_seq(content);
    if c.len() == 0 || c.len() > 4000 {
        Err((BAD_REQUEST, "content must be 1..=4000 characters"@))
    } else {
        Ok((
            c,
            match source {
                Some(s) => if trim_seq(s).len() > 0 {
                    trim_seq(s)
                } else {
                    "dashboard"@
                },
                None => "dashboard"@,
            },
        ))
    }
}

pub fn check_new_fact(content: &str, source: &Option<String>) -> (r: Result<(String, String), ApiError>)
    ensures
        match (r, fact_request(content@, match source {
            Some(s) => Some(s@),
            None => None,
        })) {
            (Ok((c, s)), Ok((c2, s2))) => c@ == c2 && s@ == s2,
            (Err(e), Err((status, message))) => api_error_is(e, status, message),
            _ => false,
        },
{
    let c = trimmed(content);
    if c.len() == 0 || c.len() > 4000 {
        return Err(ApiError::new(BAD_REQUEST, "content must be 1..=4000 characters"));
    }
    let src = match source {
        Some(s) => {
            let t = trim_string(s.as_str());
            if trimmed(s.as_str()).len() > 0 {
                t
            } else {
                "dashboard".to_owned()
            }
        },
        None => "dashboard".to_owned(),
    };
    Ok((string_of(&c), src))
}

/// The id a new fact was stored under; 0 means the store keeps no memory.
pub fn added_fact(id: i64) -> (r: Result<i64, ApiError>)
    ensures
        id == 0 ==> (r matches Err(e) && api_error_is(e, CONFLICT, "memory is disabled in config"@)),
        id != 0 ==> r == Ok::<i64, ApiError>(id),
{
    if id == 0 {
        Err(ApiError::new(CONFLICT, "memory is disabled in config"))
    } else {
        Ok(id)
    }
}

/// The answer to an edit of a memory item: done, not found, or the store's
/// refusal (an empty content, an unknown status …) passed on as 400.
pub fn patch_answer(result: Result<bool, String>) -> (r: Result<(), ApiError>)
    ensures
        match result {
            Ok(true) => r is Ok,
            Ok(false) => r matches Err(e) && api_error_is(e, NOT_FOUND, "memory item not found"@),
            Err(m) => r matches Err(e) && api_error_is(e, BAD_REQUEST, m@),
        },
{
    match result {
        Ok(true) => Ok(()),
        Ok(false) => Err(ApiError::new(NOT_FOUND, "memory item not found")),
        Err(m) => Err(ApiError { status: BAD_REQUEST, message: m }),
    }
}

/// A reset of a persona's whole memory must be confirmed by typing the
/// persona's scope name.
pub fn check_reset_confirm(confirm: &str, scope: &str) -> (r: Result<(), ApiError>)
    ensures
        r is Ok <==> trim_seq(confirm@) == scope@,
        r matches Err(e) ==> api_error_is(e, BAD_REQUEST, "confirm must equal the persona scope name"@),
{
    if chars_eq(&trimmed(confirm), &chars_of(scope)) {
        Ok(())
    } else {
        Err(ApiError::new(BAD_REQUEST, "confirm must equal the persona scope name"))
    }
}

/// The page size of the reviews column: between 1 and 200.
pub fn review_limit(limit: usize) -> (r: usize)
    ensures
        r == if limit < 1 {
            1
        } else if limit > 200 {
            200
        } else {
            limit
        },
{
    if limit < 1 {
        1
    } else if limit > 200 {
        200
    } else {
        limit
    }
}

/// The episode stage a browse request filters on: none for an empty or
/// `all` stage, else the trimmed name to parse.
pub fn stage_filter(stage: &str) -> (r: Option<String>)
    ensures
        match r {
            None => trim_seq(stage@) == Seq::<char>::empty() || trim_seq(stage@) == "all"@,
            Some(s) => s@ == trim_seq(stage@) && s@ != Seq::<char>::empty() && s@ != "all"@,
        },
{
    let t = trimmed(stage);
    if t.len() == 0 || chars_eq(&t, &chars_of("all")) {
        None
    } else {
        Some(string_of(&t))
    }
}

} // verus!
