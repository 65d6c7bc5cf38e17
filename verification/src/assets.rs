//! The asset store: the files of the bundle by their path.

use vstd::prelude::*;

use crate::text::str_eq;

verus! {

/// One file of the bundle: its path, separated by `/` and without a leading
/// one, and its bytes.
pub struct Asset {
    pub path: String,
    pub data: Vec<u8>,
}

/// The files of the bundle. No two have the same path. A path is found only
/// as it was stored, character for character.
pub struct AssetStore {
    assets: Vec<Asset>,
}

impl AssetStore {
    #[verifier::type_invariant]
    spec fn inv(self) -> bool {
        forall|i: int, j: int|
            0 <= i < j < self.assets.len() ==> self.assets[i].path@ != self.assets[j].path@
    }

    spec fn at(&self, path: Seq<char>, i: int) -> bool {
        0 <= i < self.assets.len() && self.assets[i].path@ == path
    }

    /// The bytes stored under each path.
    pub closed spec fn view(&self) -> Map<Seq<char>, Seq<u8>> {
        Map::new(
            |path: Seq<char>| exists|i: int| self.at(path, i),
            |path: Seq<char>| self.assets[choose|i: int| self.at(path, i)].data@,
        )
    }

    /// A store without files.
    pub fn new() -> (store: Self)
        ensures
            store@ == Map::<Seq<char>, Seq<u8>>::empty(),
    {
        let store = AssetStore { assets: Vec::new() };
        assert(store@ =~= Map::<Seq<char>, Seq<u8>>::empty());
        store
    }

    /// How many files the store holds.
    pub fn len(&self) -> (n: usize)
        ensures
            self@.dom().finite(),
            n == self@.len(),
    {
        proof {
            use_type_invariant(self);
            let paths = Seq::new(self.assets.len() as nat, |i: int| self.assets[i].path@);
            assert forall|p: Seq<char>| self@.dom().contains(p) <==> paths.to_set().contains(
                p,
            ) by {
                if self@.dom().contains(p) {
                    let i = choose|i: int| self.at(p, i);
                    assert(paths[i] == p);
                }
                if paths.to_set().contains(p) {
                    let i = choose|i: int| 0 <= i < paths.len() && paths[i] == p;
                    assert(self.at(p, i));
                }
            }
            assert(self@.dom() =~= paths.to_set());
            paths.unique_seq_to_set();
        }
        self.assets.len()
    }

    fn position(&self, path: &str) -> (found: Option<usize>)
        ensures
            match found {
                Some(i) => self.at(path@, i as int),
                None => forall|j: int| !self.at(path@, j),
            },
    {
        let mut i: usize = 0;
        while i < self.assets.len()
            invariant
                i <= self.assets.len(),
                forall|j: int| 0 <= j < i ==> !self.at(path@, j),
            decreases self.assets.len() - i,
        {
            if str_eq(self.assets[i].path.as_str(), path) {
                return Some(i);
            }
            i += 1;
        }
        assert forall|j: int| !self.at(path@, j) by {}
        None
    }

    /// The file stored under exactly `path`, if there is one.
    pub fn get(&self, path: &str) -> (found: Option<&Asset>)
        ensures
            match found {
                Some(asset) => self@.contains_key(path@) && asset.path@ == path@ && asset.data@
                    == self@[path@],
                None => !self@.contains_key(path@),
            },
    {
        proof {
            use_type_invariant(self);
        }
        match self.position(path) {
            Some(i) => {
                proof {
                    let k = choose|k: int| self.at(path@, k);
                    assert(k == i);
                }
                Some(&self.assets[i])
            },
            None => None,
        }
    }

    /// Whether a file is stored under exactly `path`.
    pub fn contains(&self, path: &str) -> (found: bool)
        ensures
            found == self@.contains_key(path@),
    {
        self.position(path).is_some()
    }

    /// Stores `data` under `path`, in place of what was stored there.
    pub fn insert(&mut self, path: &str, data: Vec<u8>)
        ensures
            final(self)@ == old(self)@.insert(path@, data@),
    {
        proof {
            use_type_invariant(&*self);
        }
        let ghost bytes = data@;
        let place = self.position(path);
        let asset = Asset { path: path.to_owned(), data };
        let mut assets: Vec<Asset> = Vec::new();
        core::mem::swap(&mut self.assets, &mut assets);
        match place {
            Some(i) => {
                assets.set(i, asset);
            },
            None => {
                assets.push(asset);
            },
        }
        proof {
            let before = old(self).assets@;
            assert forall|a: int, b: int| 0 <= a < b < assets.len() implies assets[a].path@
                != assets[b].path@ by {
                match place {
                    Some(i) => {
                        assert(old(self).at(path@, i as int));
                        assert(assets[a].path@ == before[a].path@);
                        assert(assets[b].path@ == before[b].path@);
                    },
                    None => {
                        if b == before.len() {
                            assert(!old(self).at(path@, a));
                        }
                    },
                }
            }
        }
        self.assets = assets;
        proof {
            let at = match place {
                Some(i) => i as int,
                None => old(self).assets.len() as int,
            };
            assert(self.at(path@, at));
            assert forall|p: Seq<char>| self@.contains_key(p) <==> old(self)@.contains_key(p) || p
                == path@ by {
                if old(self)@.contains_key(p) {
                    let i = choose|i: int| old(self).at(p, i);
                    if p != path@ {
                        assert(self.at(p, i));
                    }
                }
                if self@.contains_key(p) && p != path@ {
                    let i = choose|i: int| self.at(p, i);
                    assert(old(self).at(p, i));
                }
            }
            assert forall|p: Seq<char>| self@.contains_key(p) implies self@[p] == old(
                self,
            )@.insert(path@, bytes)[p] by {
                let i = choose|i: int| self.at(p, i);
                if p != path@ {
                    let k = choose|k: int| old(self).at(p, k);
                    assert(old(self).at(p, i));
                    assert(i == k);
                } else {
                    assert(i == at);
                }
            }
            assert(self@ =~= old(self)@.insert(path@, bytes));
        }
    }
}

} // verus!
