//! Request dispatch: an explicit, ordered list of matchers in a fixed
//! precedence, in place of a framework's implicit route ranking.  The
//! special root files come first, then the static mount, then the hosted
//! sections in their configured order; anything else goes to the fixed
//! not-found responder.
use vstd::prelude::*;

use crate::strutil::str_eq;
use crate::types::{special_file_of, SpecialFile};

verus! {

/// Which mount a request belongs to.
pub enum Route {
    Special { file: Vec<String> },
    Static { rest: Vec<String> },
    Section { index: usize, rest: Vec<String> },
    Unrouted,
}

/// Spec-level image of a routing decision.
pub enum RouteV {
    Special { file: Seq<Seq<char>> },
    Static { rest: Seq<Seq<char>> },
    Section { index: int, rest: Seq<Seq<char>> },
    Unrouted,
}

impl View for Route {
    type V = RouteV;

    open spec fn view(&self) -> RouteV {
        match self {
            Route::Special { file } => RouteV::Special { file: file.deep_view() },
            Route::Static { rest } => RouteV::Static { rest: rest.deep_view() },
            Route::Section { index, rest } => RouteV::Section {
                index: *index as int,
                rest: rest.deep_view(),
            },
            Route::Unrouted => RouteV::Unrouted,
        }
    }
}

/// The first section whose prefix is `name`, if any.
pub open spec fn first_section(sections: Seq<Seq<char>>, name: Seq<char>) -> Option<int>
    decreases sections.len(),
{
    if sections.len() == 0 {
        None
    } else if sections[0] == name {
        Some(0)
    } else {
        match first_section(sections.skip(1), name) {
            Some(i) => Some(i + 1),
            None => None,
        }
    }
}

/// Where a request is routed: the special root files first, then the
/// static mount, then the first matching section, else nowhere.
pub open spec fn dispatch_spec(sections: Seq<Seq<char>>, req: Seq<Seq<char>>) -> RouteV {
    if req.len() == 0 {
        RouteV::Special { file: seq!["index.html"@] }
    } else if req.len() == 1 && special_file_of(req[0]) is Some {
        RouteV::Special { file: special_file_of(req[0])->Some_0 }
    } else if req[0] == "static"@ {
        RouteV::Static { rest: req.skip(1) }
    } else {
        match first_section(sections, req[0]) {
            Some(i) => RouteV::Section { index: i, rest: req.skip(1) },
            None => RouteV::Unrouted,
        }
    }
}

/// Skipping a matched prefix shifts the first match accordingly.
proof fn lemma_first_section_skip(sections: Seq<Seq<char>>, name: Seq<char>, i: int)
    requires
        0 <= i <= sections.len(),
        forall|k: int| 0 <= k < i ==> sections[k] != name,
    ensures
        first_section(sections, name) == match first_section(sections.skip(i), name) {
            Some(j) => Some(i + j),
            None => None,
        },
    decreases i,
{
    if i == 0 {
        assert(sections.skip(0) =~= sections);
    } else {
        assert(sections[0] != name);
        assert(forall|k: int| 0 <= k < i - 1 ==> sections.skip(1)[k] != name);
        lemma_first_section_skip(sections.skip(1), name, i - 1);
        assert(sections.skip(1).skip(i - 1) =~= sections.skip(i));
    }
}

/// The request without its first segment.
fn skip_first(v: &Vec<String>) -> (r: Vec<String>)
    requires
        v@.len() >= 1,
    ensures
        r.deep_view() == v.deep_view().skip(1),
{
    let n = v.len();
    let mut r: Vec<String> = Vec::new();
    let mut i: usize = 1;
    while i < n
        invariant
            1 <= i <= n,
            n == v@.len(),
            r@.len() == i - 1,
            forall|k: int| 0 <= k < i - 1 ==> #[trigger] r.deep_view()[k] == v.deep_view()[k + 1],
        decreases n - i,
    {
        let ghost prev = r.deep_view();
        r.push(v[i].clone());
        proof {
            assert forall|k: int|
                0 <= k < r@.len() implies #[trigger] r.deep_view()[k] == v.deep_view()[k + 1] by {
                if k < r@.len() - 1 {
                    assert(r.deep_view()[k] == prev[k]);
                } else {
                    assert(r.deep_view()[k] == v@[i as int]@);
                }
            }
        }
        i = i + 1;
    }
    proof {
        assert(r.deep_view() =~= v.deep_view().skip(1));
    }
    r
}

/// Routes a request in the fixed precedence order.
pub fn dispatch(sections: &Vec<String>, req: &Vec<String>) -> (r: Route)
    ensures
        r@ == dispatch_spec(sections.deep_view(), req.deep_view()),
{
    if req.len() == 0 {
        let mut file: Vec<String> = Vec::new();
        file.push("index.html".to_owned());
        proof {
            assert(file.deep_view() =~= seq!["index.html"@]);
        }
        return Route::Special { file };
    }
    proof {
        assert(req.deep_view()[0] == req@[0]@);
    }
    if req.len() == 1 {
        if let Some(special) = SpecialFile::from_param(req[0].as_str()) {
            return Route::Special { file: special.0 };
        }
    }
    if str_eq(req[0].as_str(), "static") {
        return Route::Static { rest: skip_first(req) };
    }
    let name = &req[0];
    let n = sections.len();
    let mut i: usize = 0;
    while i < n
        invariant
            0 <= i <= n,
            n == sections@.len(),
            req@.len() >= 1,
            forall|k: int| 0 <= k < i ==> #[trigger] sections.deep_view()[k] != name@,
            name@ == req.deep_view()[0],
            req.deep_view()[0] != "static"@,
            !(req.deep_view().len() == 1 && special_file_of(req.deep_view()[0]) is Some),
        decreases n - i,
    {
        if str_eq(sections[i].as_str(), name.as_str()) {
            proof {
                lemma_first_section_skip(sections.deep_view(), name@, i as int);
                assert(sections.deep_view().skip(i as int)[0] == sections.deep_view()[i as int]);
                assert(first_section(sections.deep_view(), name@) == Some(i as int));
            }
            return Route::Section { index: i, rest: skip_first(req) };
        }
        proof {
            assert(sections.deep_view()[i as int] == sections@[i as int]@);
        }
        i = i + 1;
    }
    proof {
        lemma_first_section_skip(sections.deep_view(), name@, n as int);
        assert(sections.deep_view().skip(n as int) =~= Seq::<Seq<char>>::empty());
        assert(first_section(sections.deep_view(), name@) is None);
    }
    Route::Unrouted
}

} // verus!
