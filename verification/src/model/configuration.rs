//! Node configuration: named settings, and how a flow-wide configuration and
//! a node's own configuration combine.

use crate::text::{copy_items, lemma_views_push, opt_view, views};
use vstd::prelude::*;

verus! {

/// One named setting. The value is kept as text.
#[derive(Debug, PartialEq, Eq)]
pub struct Setting {
    pub key: String,
    pub value: String,
}

impl View for Setting {
    type V = (Seq<char>, Seq<char>);

    open spec fn view(&self) -> (Seq<char>, Seq<char>) {
        (self.key@, self.value@)
    }
}

impl Clone for Setting {
    fn clone(&self) -> (r: Self)
        ensures
            r@ == self@,
    {
        Setting { key: self.key.clone(), value: self.value.clone() }
    }
}

/// A configuration: a list of settings in which a later setting replaces an
/// earlier one of the same key. Its view is the resulting map from keys to
/// values.
#[derive(Debug, PartialEq, Eq)]
pub struct Configuration {
    pub settings: Vec<Setting>,
}

/// The map that a list of settings stands for: each key with the value of its
/// last setting.
pub open spec fn settings_map(s: Seq<(Seq<char>, Seq<char>)>) -> Map<Seq<char>, Seq<char>>
    decreases s.len(),
{
    if s.len() == 0 {
        Map::empty()
    } else {
        settings_map(s.drop_last()).insert(s.last().0, s.last().1)
    }
}

impl View for Configuration {
    type V = Map<Seq<char>, Seq<char>>;

    open spec fn view(&self) -> Map<Seq<char>, Seq<char>> {
        settings_map(views(self.settings@))
    }
}

/// The settings of `a` followed by those of `b` stand for the map of `a`
/// overridden by the map of `b`.
pub proof fn lemma_settings_map_concat(
    a: Seq<(Seq<char>, Seq<char>)>,
    b: Seq<(Seq<char>, Seq<char>)>,
)
    ensures
        settings_map(a + b) == settings_map(a).union_prefer_right(settings_map(b)),
    decreases b.len(),
{
    if b.len() == 0 {
        assert(a + b =~= a);
        assert(settings_map(a).union_prefer_right(settings_map(b)) =~= settings_map(a));
    } else {
        lemma_settings_map_concat(a, b.drop_last());
        assert((a + b).drop_last() =~= a + b.drop_last());
        assert((a + b).last() == b.last());
        assert(settings_map(a + b) =~= settings_map(a).union_prefer_right(settings_map(b)));
    }
}

impl Configuration {
    /// The value of `key`, if the configuration sets it.
    pub fn get(&self, key: &String) -> (r: Option<&String>)
        ensures
            match r {
                Some(v) => self@.contains_key(key@) && v@ == self@[key@],
                None => !self@.contains_key(key@),
            },
    {
        let mut i: usize = self.settings.len();
        assert(views(self.settings@).take(i as int) =~= views(self.settings@));
        while i > 0
            invariant
                i <= self.settings@.len(),
                !self@.contains_key(key@) <==> !settings_map(
                    views(self.settings@).take(i as int),
                ).contains_key(key@),
                self@.contains_key(key@) ==> self@[key@] == settings_map(
                    views(self.settings@).take(i as int),
                )[key@],
            decreases i,
        {
            let ghost head = views(self.settings@).take(i as int);
            assert(head.drop_last() =~= views(self.settings@).take(i - 1));
            assert(head.last() == self.settings@[i - 1]@);
            i -= 1;
            if self.settings[i].key == *key {
                return Some(&self.settings[i].value);
            }
        }
        None
    }
}

impl Clone for Configuration {
    fn clone(&self) -> (r: Self)
        ensures
            r@ == self@,
    {
        Configuration { settings: copy_items(&self.settings) }
    }
}

/// What an optional configuration stands for.
pub open spec fn merged(
    global: Option<Map<Seq<char>, Seq<char>>>,
    local: Option<Map<Seq<char>, Seq<char>>>,
) -> Option<Map<Seq<char>, Seq<char>>> {
    match (global, local) {
        (None, None) => None,
        (None, Some(l)) => Some(l),
        (Some(g), None) => Some(g),
        (Some(g), Some(l)) => Some(g.union_prefer_right(l)),
    }
}

/// Combines the flow-wide configuration with a node's own: a key that the
/// node sets keeps the node's value, any other key keeps the flow-wide value.
pub fn merge_configurations(global: Option<Configuration>, local: Option<Configuration>) -> (r:
    Option<Configuration>)
    ensures
        opt_view(r) == merged(
            opt_view(global),
            opt_view(local),
        ),
{
    match (global, local) {
        (None, None) => None,
        (None, Some(l)) => Some(l),
        (Some(g), None) => Some(g),
        (Some(g), Some(l)) => {
            let ghost g0 = views(g.settings@);
            let ghost l0 = views(l.settings@);
            let mut settings = g.settings;
            let mut i: usize = 0;
            assert(g0 + l0.take(0) =~= g0);
            while i < l.settings.len()
                invariant
                    i <= l.settings@.len(),
                    l0 == views(l.settings@),
                    views(settings@) == g0 + l0.take(i as int),
                decreases l.settings@.len() - i,
            {
                let s = l.settings[i].clone();
                proof {
                    lemma_views_push(settings@, s);
                    assert(l0.take(i + 1) =~= l0.take(i as int).push(s@));
                    assert(views(settings@.push(s)) =~= g0 + l0.take(i + 1));
                }
                settings.push(s);
                i += 1;
            }
            proof {
                assert(l0.take(l0.len() as int) =~= l0);
                lemma_settings_map_concat(g0, l0);
            }
            Some(Configuration { settings })
        },
    }
}

} // verus!
