//! The ECS engines that every comparable benchmark family is run against.

use vstd::prelude::*;

use crate::text::chars_of;
use crate::text::chars_equal;

verus! {

/// One of the compared ECS engines; its name is the last path component of
/// every benchmark identifier (`family/engine`).
#[derive(Clone, Copy, Debug, PartialEq, Eq, Structural)]
pub enum Engine {
    Sky,
    Hecs,
    Bevy,
    FlecsC,
    Freecs,
    Shipyard,
}

/// The identifier suffix used for `e`.
pub open spec fn engine_name(e: Engine) -> Seq<char> {
    match e {
        Engine::Sky => "sky"@,
        Engine::Hecs => "hecs"@,
        Engine::Bevy => "bevy"@,
        Engine::FlecsC => "flecs_c"@,
        Engine::Freecs => "freecs"@,
        Engine::Shipyard => "shipyard"@,
    }
}

/// Every engine, in the publication order.
pub open spec fn all_engines() -> Seq<Engine> {
    seq![
        Engine::Sky,
        Engine::Hecs,
        Engine::Bevy,
        Engine::FlecsC,
        Engine::Freecs,
        Engine::Shipyard,
    ]
}

/// The engines that run the 16-component random-fragmentation matrix.
pub open spec fn engines_without_freecs() -> Seq<Engine> {
    seq![Engine::Sky, Engine::Hecs, Engine::Bevy, Engine::FlecsC, Engine::Shipyard]
}

/// The engine whose name is `s`, if any.
pub open spec fn parse_engine(s: Seq<char>) -> Option<Engine> {
    if s == engine_name(Engine::Sky) {
        Some(Engine::Sky)
    } else if s == engine_name(Engine::Hecs) {
        Some(Engine::Hecs)
    } else if s == engine_name(Engine::Bevy) {
        Some(Engine::Bevy)
    } else if s == engine_name(Engine::FlecsC) {
        Some(Engine::FlecsC)
    } else if s == engine_name(Engine::Freecs) {
        Some(Engine::Freecs)
    } else if s == engine_name(Engine::Shipyard) {
        Some(Engine::Shipyard)
    } else {
        None
    }
}

/// The number of compared engines.
pub const ENGINE_COUNT: usize = 6;

impl Engine {
    /// Every engine, in the publication order.
    pub fn all() -> (r: Vec<Engine>)
        ensures
            r@ == all_engines(),
            r@.len() == ENGINE_COUNT,
    {
        let r = vec![
            Engine::Sky,
            Engine::Hecs,
            Engine::Bevy,
            Engine::FlecsC,
            Engine::Freecs,
            Engine::Shipyard,
        ];
        assert(r@ =~= all_engines());
        r
    }

    /// The identifier suffix of this engine.
    pub fn name(self) -> (r: &'static str)
        ensures
            r@ == engine_name(self),
    {
        match self {
            Engine::Sky => "sky",
            Engine::Hecs => "hecs",
            Engine::Bevy => "bevy",
            Engine::FlecsC => "flecs_c",
            Engine::Freecs => "freecs",
            Engine::Shipyard => "shipyard",
        }
    }

    /// The engine whose identifier suffix is `name`.
    pub fn parse(name: &str) -> (r: Option<Engine>)
        ensures
            r == parse_engine(name@),
    {
        let s = chars_of(name);
        Engine::parse_chars(&s)
    }

    /// The engine whose identifier suffix is the text `name`.
    pub fn parse_chars(name: &Vec<char>) -> (r: Option<Engine>)
        ensures
            r == parse_engine(name@),
    {
        let all = Engine::all();
        let mut i: usize = 0;
        while i < all.len()
            invariant
                all@ == all_engines(),
                i <= all@.len(),
                forall|j: int| 0 <= j < i ==> engine_name(#[trigger] all@[j]) != name@,
            decreases all.len() - i,
        {
            let e = all[i];
            let candidate = chars_of(e.name());
            if chars_equal(name, &candidate) {
                assert(forall|j: int| 0 <= j < i ==> engine_name(#[trigger] all@[j]) != name@);
                proof {
                    if i >= 1 {
                        assert(engine_name(all@[0]) != name@);
                    }
                    if i >= 2 {
                        assert(engine_name(all@[1]) != name@);
                    }
                    if i >= 3 {
                        assert(engine_name(all@[2]) != name@);
                    }
                    if i >= 4 {
                        assert(engine_name(all@[3]) != name@);
                    }
                    if i >= 5 {
                        assert(engine_name(all@[4]) != name@);
                    }
                }
                return Some(e);
            }
            i = i + 1;
        }
        assert(engine_name(all@[0]) != name@);
        assert(engine_name(all@[1]) != name@);
        assert(engine_name(all@[2]) != name@);
        assert(engine_name(all@[3]) != name@);
        assert(engine_name(all@[4]) != name@);
        assert(engine_name(all@[5]) != name@);
        None
    }
}

/// Every engine name is a short lower-case word: no two engines share a
/// name, and no name holds the `/` or `,` separators of identifiers and
/// engine orders.
pub proof fn lemma_engine_names_distinct()
    ensures
        forall|a: Engine, b: Engine| engine_name(a) == engine_name(b) ==> a == b,
        forall|e: Engine| !engine_name(e).contains('/') && !engine_name(e).contains(','),
        forall|e: Engine| engine_name(e).len() > 0,
{
    reveal_strlit("sky");
    reveal_strlit("hecs");
    reveal_strlit("bevy");
    reveal_strlit("flecs_c");
    reveal_strlit("freecs");
    reveal_strlit("shipyard");
    assert forall|a: Engine, b: Engine| engine_name(a) == engine_name(b) implies a == b by {
        if a != b {
            assert(engine_name(a).len() != engine_name(b).len() || engine_name(a)[0] != engine_name(
                b,
            )[0] || engine_name(a)[1] != engine_name(b)[1]);
        }
    }
}

/// Parsing the name of an engine gives back that engine, and every engine
/// occurs in `Engine::all()` exactly once.
pub proof fn lemma_engine_parse_name(e: Engine)
    ensures
        parse_engine(engine_name(e)) == Some(e),
        all_engines().contains(e),
        all_engines().no_duplicates(),
{
    lemma_engine_names_distinct();
    assert(all_engines()[0] == Engine::Sky);
    assert(all_engines()[1] == Engine::Hecs);
    assert(all_engines()[2] == Engine::Bevy);
    assert(all_engines()[3] == Engine::FlecsC);
    assert(all_engines()[4] == Engine::Freecs);
    assert(all_engines()[5] == Engine::Shipyard);
    match e {
        Engine::Sky => assert(all_engines()[0] == e),
        Engine::Hecs => assert(all_engines()[1] == e),
        Engine::Bevy => assert(all_engines()[2] == e),
        Engine::FlecsC => assert(all_engines()[3] == e),
        Engine::Freecs => assert(all_engines()[4] == e),
        Engine::Shipyard => assert(all_engines()[5] == e),
    }
}

/// An engine that `parse_engine` finds is the one with that name.
pub proof fn lemma_parse_engine_sound(s: Seq<char>)
    ensures
        parse_engine(s) matches Some(e) ==> engine_name(e) == s,
{
}

} // verus!
