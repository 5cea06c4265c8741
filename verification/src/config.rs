//! Configuration maps and the configuration composer.
//!
//! A configuration is a mapping of option-name symbols to values, with
//! two reserved integer knobs — choose-priority and merge-priority —
//! that control how an inherited (parent) configuration and a schema's
//! local (child) configuration are composed into the one configuration
//! a node uses and propagates downward.

use vstd::prelude::*;

use crate::errors::BuildError;

verus! {

/// Reserved option: the choose-priority knob.
pub const CONFIG_CHOOSE_PRIORITY: u64 = 1;
/// Reserved option: the merge-priority knob.
pub const CONFIG_MERGE_PRIORITY: u64 = 2;
/// Option: whether already-typed instances are revalidated.
pub const CONFIG_REVALIDATE_MODELS: u64 = 3;

/// A configuration option's value.
#[derive(Clone, Copy, PartialEq, Eq, Structural, Debug)]
pub enum ConfigValue {
    Bool(bool),
    Int(i64),
}

/// A resolved configuration: option-name symbols to values, unique keys.
#[derive(Debug)]
pub struct Config {
    pub entries: Vec<(u64, ConfigValue)>,
}

/// Entry list folded into a map; with unique keys the fold order is
/// immaterial.
pub open spec fn centry_map(s: Seq<(u64, ConfigValue)>) -> Map<u64, ConfigValue>
    decreases s,
{
    if s.len() == 0 {
        Map::empty()
    } else {
        centry_map(s.drop_last()).insert(s.last().0, s.last().1)
    }
}

pub open spec fn keys_unique(s: Seq<(u64, ConfigValue)>) -> bool {
    forall|i: int, j: int| 0 <= i < j < s.len() ==> s[i].0 != s[j].0
}

impl View for Config {
    type V = Map<u64, ConfigValue>;

    open spec fn view(&self) -> Map<u64, ConfigValue> {
        centry_map(self.entries@)
    }
}

impl Config {
    pub open spec fn wf(&self) -> bool {
        keys_unique(self.entries@)
    }

    pub fn new() -> (r: Config)
        ensures
            r.wf(),
            r@ == Map::<u64, ConfigValue>::empty(),
    {
        Config { entries: Vec::new() }
    }

    /// Insert for building a configuration by hand; refuses duplicates.
    #[verifier::loop_isolation(false)]
    pub fn insert(&mut self, key: u64, value: ConfigValue) -> (r: bool)
        requires
            old(self).wf(),
        ensures
            final(self).wf(),
            r ==> final(self)@ == old(self)@.insert(key, value) && !old(self)@.contains_key(key),
            !r ==> final(self)@ == old(self)@ && old(self)@.contains_key(key),
    {
        proof {
            lemma_centry_map(self.entries@);
        }
        let mut i: usize = 0;
        while i < self.entries.len()
            invariant
                i <= self.entries@.len(),
                forall|j: int| 0 <= j < i ==> self.entries@[j].0 != key,
            decreases self.entries@.len() - i,
        {
            if self.entries[i].0 == key {
                return false;
            }
            i = i + 1;
        }
        self.entries.push((key, value));
        proof {
            assert(self.entries@.drop_last() =~= old(self).entries@);
        }
        true
    }

    /// The value bound to `key`, if any.
    #[verifier::loop_isolation(false)]
    pub fn get(&self, key: u64) -> (r: Option<ConfigValue>)
        requires
            self.wf(),
        ensures
            r == if self@.contains_key(key) {
                Some(self@[key])
            } else {
                None::<ConfigValue>
            },
    {
        proof {
            lemma_centry_map(self.entries@);
        }
        let mut i: usize = 0;
        while i < self.entries.len()
            invariant
                i <= self.entries@.len(),
                forall|j: int| 0 <= j < i ==> self.entries@[j].0 != key,
            decreases self.entries@.len() - i,
        {
            if self.entries[i].0 == key {
                return Some(self.entries[i].1);
            }
            i = i + 1;
        }
        None
    }
}

/// With unique keys, the folded map holds exactly the listed pairs.
pub proof fn lemma_centry_map(s: Seq<(u64, ConfigValue)>)
    requires
        keys_unique(s),
    ensures
        forall|k: u64|
            #[trigger] centry_map(s).contains_key(k) <==> exists|i: int|
                0 <= i < s.len() && s[i].0 == k,
        forall|i: int|
            0 <= i < s.len() ==> centry_map(s).contains_key(#[trigger] s[i].0)
                && centry_map(s)[s[i].0] == s[i].1,
    decreases s,
{
    if s.len() > 0 {
        lemma_centry_map(s.drop_last());
        assert forall|i: int| 0 <= i < s.len() implies centry_map(s).contains_key(
            #[trigger] s[i].0,
        ) && centry_map(s)[s[i].0] == s[i].1 by {
            if i < s.len() - 1 {
                assert(s.drop_last()[i] == s[i]);
                assert(s[i].0 != s.last().0);
            }
        }
        assert forall|k: u64| #[trigger] centry_map(s).contains_key(k) implies exists|i: int|
            0 <= i < s.len() && s[i].0 == k by {
            if k != s.last().0 {
                let i = choose|i: int| 0 <= i < s.drop_last().len() && s.drop_last()[i].0 == k;
                assert(s[i].0 == k);
            } else {
                assert(s[s.len() - 1].0 == k);
            }
        }
    }
}

/// The effective priority knob `key` of configuration map `m`:
/// absent means 0, an integer is itself, anything else is an invalid
/// priority (an external-input error).
pub open spec fn spec_priority(m: Map<u64, ConfigValue>, key: u64) -> Result<int, BuildError> {
    if !m.contains_key(key) {
        Ok(0)
    } else {
        match m[key] {
            ConfigValue::Int(i) => Ok(i as int),
            _ => Err(BuildError::InvalidPriority { key: key }),
        }
    }
}

pub fn config_priority(c: &Config, key: u64) -> (r: Result<i64, BuildError>)
    requires
        c.wf(),
    ensures
        match r {
            Ok(i) => spec_priority(c@, key) == Ok::<int, BuildError>(i as int),
            Err(e) => spec_priority(c@, key) == Err::<int, BuildError>(e),
        },
{
    match c.get(key) {
        None => Ok(0),
        Some(ConfigValue::Int(i)) => Ok(i),
        Some(_) => Err(BuildError::InvalidPriority { key }),
    }
}

/// The composed configuration when both parent and child are present.
///
/// The strictly greater choose-priority wins outright; on a tie, the
/// merge-priorities decide who absorbs whom: the loser's entries are
/// merged into the winner's map, and entries already present in the
/// winner are not overwritten.
pub open spec fn spec_compose_both(
    parent: Map<u64, ConfigValue>,
    child: Map<u64, ConfigValue>,
) -> Result<Map<u64, ConfigValue>, BuildError> {
    match spec_priority(parent, CONFIG_CHOOSE_PRIORITY) {
        Err(e) => Err(e),
        Ok(pc) => match spec_priority(child, CONFIG_CHOOSE_PRIORITY) {
            Err(e) => Err(e),
            Ok(cc) => {
                if pc > cc {
                    Ok(parent)
                } else if pc < cc {
                    Ok(child)
                } else {
                    match spec_priority(parent, CONFIG_MERGE_PRIORITY) {
                        Err(e) => Err(e),
                        Ok(pm) => match spec_priority(child, CONFIG_MERGE_PRIORITY) {
                            Err(e) => Err(e),
                            Ok(cm) => {
                                if cm > pm {
                                    // parent merged into child; child's
                                    // entries take precedence
                                    Ok(parent.union_prefer_right(child))
                                } else {
                                    // child merged into parent; parent's
                                    // entries take precedence
                                    Ok(child.union_prefer_right(parent))
                                }
                            },
                        },
                    }
                }
            },
        },
    }
}

/// The configuration composer on optional maps: a lone side wins
/// outright; two absent sides compose to absent.
pub open spec fn spec_compose(
    parent: Option<Map<u64, ConfigValue>>,
    child: Option<Map<u64, ConfigValue>>,
) -> Result<Option<Map<u64, ConfigValue>>, BuildError> {
    match (parent, child) {
        (Some(p), None) => Ok(Some(p)),
        (None, Some(c)) => Ok(Some(c)),
        (None, None) => Ok(None),
        (Some(p), Some(c)) => match spec_compose_both(p, c) {
            Ok(m) => Ok(Some(m)),
            Err(e) => Err(e),
        },
    }
}

/// The winner's entries, then every loser entry whose key the winner
/// does not bind: `loser.union_prefer_right(winner)` as an entry list.
#[verifier::loop_isolation(false)]
fn merge_into(winner: &Config, loser: &Config) -> (r: Config)
    requires
        winner.wf(),
        loser.wf(),
    ensures
        r.wf(),
        r@ == loser@.union_prefer_right(winner@),
{
    proof {
        lemma_centry_map(winner.entries@);
        lemma_centry_map(loser.entries@);
    }
    let mut out: Vec<(u64, ConfigValue)> = Vec::new();
    let mut i: usize = 0;
    while i < winner.entries.len()
        invariant
            i <= winner.entries@.len(),
            out@ =~= winner.entries@.take(i as int),
        decreases winner.entries@.len() - i,
    {
        out.push((winner.entries[i].0, winner.entries[i].1));
        proof {
            assert(out@ =~= winner.entries@.take(i + 1));
        }
        i = i + 1;
    }
    proof {
        assert(out@ =~= winner.entries@);
    }
    let mut k: usize = 0;
    while k < loser.entries.len()
        invariant
            k <= loser.entries@.len(),
            winner.wf(),
            loser.wf(),
            keys_unique(out@),
            centry_map(out@) =~= centry_map(loser.entries@.take(k as int)).union_prefer_right(
                winner@,
            ),
            forall|j: int|
                0 <= j < out@.len() ==> winner@.contains_key(#[trigger] out@[j].0)
                    || centry_map(loser.entries@.take(k as int)).contains_key(out@[j].0),
            forall|k2: u64|
                #[trigger] centry_map(loser.entries@.take(k as int)).contains_key(k2)
                    ==> exists|j: int| 0 <= j < k && loser.entries@[j].0 == k2,
        decreases loser.entries@.len() - k,
    {
        let key = loser.entries[k].0;
        let ghost prefix = loser.entries@.take(k as int);
        proof {
            assert(loser.entries@.take(k + 1).drop_last() =~= prefix);
            assert(keys_unique(prefix));
            lemma_centry_map(prefix);
        }
        match winner.get(key) {
            Some(_) => {
                proof {
                    assert(centry_map(loser.entries@.take(k + 1)) == centry_map(prefix).insert(
                        key,
                        loser.entries@[k as int].1,
                    ));
                    assert(centry_map(out@) =~= centry_map(loser.entries@.take(k + 1))
                        .union_prefer_right(winner@));
                }
            },
            None => {
                proof {
                    // key is new to out: not in winner, not in the prefix
                    assert forall|j: int| 0 <= j < out@.len() implies out@[j].0 != key by {
                        if centry_map(prefix).contains_key(out@[j].0) {
                            let jj = choose|jj: int|
                                0 <= jj < k && loser.entries@[jj].0 == out@[j].0;
                            assert(loser.entries@[jj].0 != loser.entries@[k as int].0);
                        }
                    }
                }
                let ghost out0 = out@;
                out.push((key, loser.entries[k].1));
                proof {
                    assert(out@.drop_last() =~= out0);
                    assert(centry_map(out@) == centry_map(out0).insert(
                        key,
                        loser.entries@[k as int].1,
                    ));
                    assert(centry_map(out@) =~= centry_map(loser.entries@.take(k + 1))
                        .union_prefer_right(winner@));
                }
            },
        }
        k = k + 1;
    }
    proof {
        assert(loser.entries@.take(loser.entries@.len() as int) =~= loser.entries@);
    }
    Config { entries: out }
}

/// Composes an inherited configuration with a schema's local one.
///
/// Exactly one present: it wins outright. Both absent: absent. Both
/// present: the strictly greater choose-priority wins outright; on a
/// tie the merge-priorities pick a winner whose entries take
/// precedence, and the loser's remaining entries are merged in.
pub fn build_config(parent: Option<&Config>, child: Option<&Config>) -> (r: Result<
    Option<Config>,
    BuildError,
>)
    requires
        parent is Some ==> parent.unwrap().wf(),
        child is Some ==> child.unwrap().wf(),
    ensures
        match r {
            Ok(Some(cfg)) => cfg.wf() && spec_compose(opt_view(parent), opt_view(child))
                == Ok::<Option<Map<u64, ConfigValue>>, BuildError>(Some(cfg@)),
            Ok(None) => spec_compose(opt_view(parent), opt_view(child)) == Ok::<
                Option<Map<u64, ConfigValue>>,
                BuildError,
            >(None),
            Err(e) => spec_compose(opt_view(parent), opt_view(child)) == Err::<
                Option<Map<u64, ConfigValue>>,
                BuildError,
            >(e),
        },
{
    match (parent, child) {
        (None, None) => Ok(None),
        (Some(p), None) => {
            let r = merge_into(p, p);
            proof {
                assert(p@.union_prefer_right(p@) =~= p@);
            }
            Ok(Some(r))
        },
        (None, Some(c)) => {
            let r = merge_into(c, c);
            proof {
                assert(c@.union_prefer_right(c@) =~= c@);
            }
            Ok(Some(r))
        },
        (Some(p), Some(c)) => {
            let pc = match config_priority(p, CONFIG_CHOOSE_PRIORITY) {
                Ok(i) => i,
                Err(e) => {
                    return Err(e);
                },
            };
            let cc = match config_priority(c, CONFIG_CHOOSE_PRIORITY) {
                Ok(i) => i,
                Err(e) => {
                    return Err(e);
                },
            };
            if pc > cc {
                let r = merge_into(p, p);
                proof {
                    assert(p@.union_prefer_right(p@) =~= p@);
                }
                Ok(Some(r))
            } else if pc < cc {
                let r = merge_into(c, c);
                proof {
                    assert(c@.union_prefer_right(c@) =~= c@);
                }
                Ok(Some(r))
            } else {
                let pm = match config_priority(p, CONFIG_MERGE_PRIORITY) {
                    Ok(i) => i,
                    Err(e) => {
                        return Err(e);
                    },
                };
                let cm = match config_priority(c, CONFIG_MERGE_PRIORITY) {
                    Ok(i) => i,
                    Err(e) => {
                        return Err(e);
                    },
                };
                if cm > pm {
                    Ok(Some(merge_into(c, p)))
                } else {
                    Ok(Some(merge_into(p, c)))
                }
            }
        },
    }
}

pub open spec fn opt_view(c: Option<&Config>) -> Option<Map<u64, ConfigValue>> {
    match c {
        Some(cfg) => Some(cfg@),
        None => None,
    }
}

} // verus!
