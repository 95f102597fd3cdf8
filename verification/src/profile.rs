//! The names and the folders of the two editions. The workbench edition
//! shares no file with the other.
use vstd::prelude::*;

use crate::model;
use crate::model::{copy_all, same_all, Plain};
use crate::text::{owned, same_text};

verus! {

/// The folder of the application's data.
pub fn data_name(workbench: bool) -> (r: &'static str)
    ensures
        r@ == if workbench {
            "nuphus-workbench"@
        } else {
            "Nuphus"@
        },
{
    if workbench {
        "nuphus-workbench"
    } else {
        "Nuphus"
    }
}

/// The folder of the configuration.
pub fn config_name(workbench: bool) -> (r: &'static str)
    ensures
        r@ == if workbench {
            "nuphus-workbench"@
        } else {
            "nuphus"@
        },
{
    if workbench {
        "nuphus-workbench"
    } else {
        "nuphus"
    }
}

/// The folder below the user's home.
pub fn home_name(workbench: bool) -> (r: &'static str)
    ensures
        r@ == if workbench {
            ".nuphus-workbench"@
        } else {
            ".nuphus"@
        },
{
    if workbench {
        ".nuphus-workbench"
    } else {
        ".nuphus"
    }
}

/// The first path of a list that is there; the current folder where none is.
pub open spec fn first_path(paths: Seq<Option<Seq<char>>>) -> Seq<char>
    decreases paths.len(),
{
    if paths.len() == 0 {
        "."@
    } else {
        match paths[0] {
            Some(p) => p,
            None => first_path(paths.drop_first()),
        }
    }
}

/// A path: a base, and what is joined to it in turn.
#[derive(Debug, Clone, PartialEq, Eq)]
pub struct Place {
    pub base: String,
    pub parts: Vec<String>,
}

/// The content of a [`Place`].
#[verifier::ext_equal]
pub struct PlaceModel {
    pub base: Seq<char>,
    pub parts: Seq<Seq<char>>,
}

impl View for Place {
    type V = PlaceModel;

    open spec fn view(&self) -> PlaceModel {
        PlaceModel {
            base: self.base@,
            parts: model::seq_view(self.parts@),
        }
    }
}

impl Plain for Place {
    fn copied(&self) -> (r: Self) {
        Place {
            base: self.base.clone(),
            parts: copy_all(&self.parts),
        }
    }

    fn same(&self, other: &Self) -> (r: bool) {
        same_text(self.base.as_str(), other.base.as_str())
            && same_all(&self.parts, &other.parts)
    }
}

/// A path that is given as it stands.
pub open spec fn whole(path: Seq<char>) -> PlaceModel {
    PlaceModel { base: path, parts: Seq::empty() }
}

/// A path below another.
pub open spec fn below(place: PlaceModel, part: Seq<char>) -> PlaceModel {
    PlaceModel { parts: place.parts.push(part), ..place }
}

impl Place {
    /// A path that is given as it stands.
    pub fn whole(path: String) -> (r: Place)
        ensures
            r@ == whole(path@),
    {
        let r = Place { base: path, parts: Vec::new() };
        assert(model::seq_view(r.parts@) =~= Seq::<Seq<char>>::empty());
        r
    }

    /// A path below this one.
    pub fn join(self, part: &str) -> (r: Place)
        ensures
            r@ == below(self@, part@),
    {
        let mut parts = self.parts;
        let ghost before = parts@;
        parts.push(owned(part));
        assert(model::seq_view(parts@) =~= model::seq_view(before).push(part@));
        Place { base: self.base, parts }
    }
}

/// The folder of the configuration, below the system's.
pub open spec fn config_place(workbench: bool, system: Option<Seq<char>>) -> PlaceModel {
    below(
        whole(first_path(seq![system])),
        if workbench {
            "nuphus-workbench"@
        } else {
            "nuphus"@
        },
    )
}

/// The folder of the configuration, below the system's.
pub fn config_dir(workbench: bool, system: Option<String>) -> (r: Place)
    ensures
        r@ == config_place(workbench, model::opt_view(system)),
{
    proof {
        reveal_with_fuel(first_path, 2);
    }
    let base = match system {
        Some(p) => p,
        None => owned("."),
    };
    Place::whole(base).join(config_name(workbench))
}

/// The folder below the user's home: the environment's word for it, of either
/// system, goes before the system's own.
pub fn home_dir(
    workbench: bool,
    home: Option<String>,
    profile: Option<String>,
    system: Option<String>,
) -> (r: Place)
    ensures
        r@ == below(
            whole(
                first_path(
                    seq![model::opt_view(home), model::opt_view(profile), model::opt_view(system)],
                ),
            ),
            if workbench {
                ".nuphus-workbench"@
            } else {
                ".nuphus"@
            },
        ),
{
    proof {
        reveal_with_fuel(first_path, 4);
        let all = seq![model::opt_view(home), model::opt_view(profile), model::opt_view(system)];
        assert(all.drop_first() =~= seq![model::opt_view(profile), model::opt_view(system)]);
        assert(all.drop_first().drop_first() =~= seq![model::opt_view(system)]);
    }
    let base = match home {
        Some(p) => p,
        None => match profile {
            Some(p) => p,
            None => match system {
                Some(p) => p,
                None => owned("."),
            },
        },
    };
    Place::whole(base).join(home_name(workbench))
}

/// Where the workbench edition keeps its data: where the environment says,
/// unless that is empty; else below the system's folder.
pub fn workbench_data_dir(given: Option<String>, system: Option<String>) -> (r: Place)
    ensures
        r@ == match model::opt_view(given) {
            Some(p) => if p.len() > 0 {
                whole(p)
            } else {
                below(whole(first_path(seq![model::opt_view(system)])), "nuphus-workbench"@)
            },
            None => below(whole(first_path(seq![model::opt_view(system)])), "nuphus-workbench"@),
        },
{
    proof {
        reveal_with_fuel(first_path, 2);
    }
    match given {
        Some(p) => {
            if !p.as_str().is_empty() {
                return Place::whole(p);
            }
        },
        None => {},
    }
    let base = match system {
        Some(p) => p,
        None => owned("."),
    };
    Place::whole(base).join("nuphus-workbench")
}

/// The two editions keep their configurations in different folders.
pub proof fn editions_stay_apart(system: Option<Seq<char>>)
    ensures
        config_place(true, system) != config_place(false, system),
{
    reveal_strlit("nuphus-workbench");
    reveal_strlit("nuphus");
    let a = config_place(true, system);
    let b = config_place(false, system);
    assert(a.parts[0] == "nuphus-workbench"@);
    assert(b.parts[0] == "nuphus"@);
}

/// The first path that is known is taken, and the current folder where none is.
pub proof fn first_known_path_is_taken(paths: Seq<Option<Seq<char>>>, i: int)
    ensures
        0 <= i < paths.len() && paths[i] is Some && (forall|k: int|
            0 <= k < i ==> #[trigger] paths[k] is None) ==> first_path(paths) == paths[i]->Some_0,
        (forall|k: int| 0 <= k < paths.len() ==> #[trigger] paths[k] is None) ==> first_path(paths)
            == "."@,
    decreases paths.len(),
{
    if paths.len() > 0 && paths[0] is None {
        let rest = paths.drop_first();
        first_known_path_is_taken(rest, i - 1);
        if 0 <= i < paths.len() && paths[i] is Some && (forall|k: int|
            0 <= k < i ==> #[trigger] paths[k] is None) {
            assert(i > 0);
            assert(rest[i - 1] == paths[i]);
            assert forall|k: int| 0 <= k < i - 1 implies #[trigger] rest[k] is None by {
                assert(rest[k] == paths[k + 1]);
            }
        }
        if (forall|k: int| 0 <= k < paths.len() ==> #[trigger] paths[k] is None) {
            assert forall|k: int| 0 <= k < rest.len() implies #[trigger] rest[k] is None by {
                assert(rest[k] == paths[k + 1]);
            }
        }
    } else if paths.len() > 0 {
        if 0 <= i < paths.len() && (forall|k: int| 0 <= k < i ==> #[trigger] paths[k] is None) {
            assert(i == 0) by {
                if i > 0 {
                    assert(paths[0] is None);
                }
            }
        }
    }
}

/// The configuration lies in the system's folder for it, each edition in its own,
/// and a path below another keeps what stands above it.
pub proof fn configuration_lies_in_the_systems_folder(d: Seq<char>, p: PlaceModel, part: Seq<char>)
    ensures
        config_place(false, Some(d)).base == d,
        config_place(false, Some(d)).parts == seq!["nuphus"@],
        config_place(true, Some(d)).base == d,
        config_place(true, Some(d)).parts == seq!["nuphus-workbench"@],
        config_place(false, None).base == "."@,
        whole(d).base == d && whole(d).parts.len() == 0,
        below(p, part).base == p.base,
        below(p, part).parts == p.parts.push(part),
{
    assert(config_place(false, Some(d)).parts =~= seq!["nuphus"@]);
    assert(config_place(true, Some(d)).parts =~= seq!["nuphus-workbench"@]);
    first_known_path_is_taken(seq![Some(d)], 0);
    first_known_path_is_taken(seq![None::<Seq<char>>], 0);
}

} // verus!
