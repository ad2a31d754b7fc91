//! The primitive registry and the base environment: built once at process
//! start, immutable afterwards, shared read-only by every sandbox session.
use crate::ast::PrimOp;
use vstd::prelude::*;

verus! {

/// One native-implemented operation, callable from evaluated code under
/// `<module name>.<primitive name>`.
pub struct Prim {
    pub name: String,
    pub op: PrimOp,
}

/// One named group of primitives.
pub struct Module {
    pub name: String,
    pub prims: Vec<Prim>,
}

/// The process-wide base environment: the registry, and the module-import
/// search paths, which stay empty so that no evaluation can read the
/// filesystem.
pub struct BaseEnvironment {
    pub modules: Vec<Module>,
    pub import_paths: Vec<String>,
}

/// A bootstrap-time failure; the only kind of error that may abort the host.
pub struct ConfigError {
    pub message: String,
}

/// The names of a module list.
pub open spec fn mod_names(mods: Seq<Module>) -> Seq<Seq<char>> {
    mods.map_values(|m: Module| m.name@)
}

/// Whether some earlier entry already carries the name at `j`.
pub open spec fn dup_before(names: Seq<Seq<char>>, j: int) -> bool {
    exists|i: int| 0 <= i < j < names.len() && names[i] == names[j]
}

/// The first index whose name repeats an earlier one, if any.
pub open spec fn first_dup_from(names: Seq<Seq<char>>, j: int) -> Option<int>
    decreases names.len() - j,
{
    if j < 0 || j >= names.len() {
        Option::None
    } else if dup_before(names, j) {
        Option::Some(j)
    } else {
        first_dup_from(names, j + 1)
    }
}

pub open spec fn first_dup(names: Seq<Seq<char>>) -> Option<int> {
    first_dup_from(names, 0)
}

/// Build a base environment from a list of primitive modules. Registration
/// order does not matter, but module names must be unique: a repeated name is
/// a fatal configuration error naming the collision. The import search paths
/// of the result are empty.
pub fn bootstrap(mods: Vec<Module>) -> (r: Result<BaseEnvironment, ConfigError>)
    ensures
        match r {
            Result::Ok(b) => first_dup(mod_names(mods@)) is None && b.modules@ == mods@
                && b.import_paths@ == Seq::<String>::empty(),
            Result::Err(e) => match first_dup(mod_names(mods@)) {
                Option::Some(k) => e.message@ == "duplicate primitive module name: "@ + mod_names(
                    mods@,
                )[k],
                Option::None => false,
            },
        },
{
    let n = mods.len();
    let mut j: usize = 0;
    while j < n
        invariant
            j <= n,
            n == mods@.len(),
            first_dup_from(mod_names(mods@), 0) == first_dup_from(mod_names(mods@), j as int),
        decreases n - j,
    {
        let mut i: usize = 0;
        while i < j
            invariant
                i <= j < n,
                n == mods@.len(),
                first_dup_from(mod_names(mods@), 0) == first_dup_from(mod_names(mods@), j as int),
                forall|m: int| 0 <= m < i ==> mod_names(mods@)[m] != mod_names(mods@)[j as int],
            decreases j - i,
        {
            if mods[i].name == mods[j].name {
                assert(mod_names(mods@)[i as int] == mod_names(mods@)[j as int]);
                assert(dup_before(mod_names(mods@), j as int));
                assert(first_dup_from(mod_names(mods@), j as int) == Option::Some(j as int));
                let msg = String::from_str("duplicate primitive module name: ").concat(
                    mods[j].name.as_str(),
                );
                return Result::Err(ConfigError { message: msg });
            }
            i = i + 1;
        }
        proof {
            assert(!dup_before(mod_names(mods@), j as int));
            assert(first_dup_from(mod_names(mods@), j as int) == first_dup_from(
                mod_names(mods@),
                j as int + 1,
            ));
        }
        j = j + 1;
    }
    assert(first_dup_from(mod_names(mods@), j as int) is None);
    assert(first_dup(mod_names(mods@)) is None);
    let paths: Vec<String> = Vec::new();
    assert(paths@ =~= Seq::<String>::empty());
    Result::Ok(BaseEnvironment { modules: mods, import_paths: paths })
}

/// The fixed default registry: integer and string primitives, plus the empty
/// core module.
fn default_modules() -> (r: Vec<Module>)
    ensures
        mod_names(r@).len() == 3,
        mod_names(r@)[0] == "std.prim"@,
        mod_names(r@)[1] == "std.int.prim"@,
        mod_names(r@)[2] == "std.string.prim"@,
{
    let core = Module { name: String::from_str("std.prim"), prims: Vec::new() };
    let mut int_prims: Vec<Prim> = Vec::new();
    int_prims.push(Prim { name: String::from_str("abs"), op: PrimOp::IntAbs });
    int_prims.push(Prim { name: String::from_str("neg"), op: PrimOp::IntNeg });
    let ints = Module { name: String::from_str("std.int.prim"), prims: int_prims };
    let mut str_prims: Vec<Prim> = Vec::new();
    str_prims.push(Prim { name: String::from_str("len"), op: PrimOp::StrLen });
    let strs = Module { name: String::from_str("std.string.prim"), prims: str_prims };
    let mut mods: Vec<Module> = Vec::new();
    mods.push(core);
    mods.push(ints);
    mods.push(strs);
    assert(mod_names(mods@) =~= seq!["std.prim"@, "std.int.prim"@, "std.string.prim"@]);
    mods
}

/// Build the shared base environment that every session derives from: the
/// default primitive modules, registered once, with no filesystem-backed
/// import paths. Must be called before the first evaluation; its failure is
/// fatal.
pub fn initialize() -> (r: Result<BaseEnvironment, ConfigError>)
    ensures
        r is Ok,
        match r {
            Result::Ok(b) => mod_names(b.modules@).len() == 3 && b.import_paths@
                == Seq::<String>::empty(),
            Result::Err(_) => false,
        },
{
    let mods = default_modules();
    proof {
        reveal_strlit("std.prim");
        reveal_strlit("std.int.prim");
        reveal_strlit("std.string.prim");
        let names = mod_names(mods@);
        assert(names[0].len() == 8);
        assert(names[1].len() == 12);
        assert(names[2].len() == 15);
        assert(names[0] != names[1]);
        assert(names[0] != names[2]);
        assert(names[1] != names[2]);
        assert(!dup_before(names, 0));
        assert(!dup_before(names, 1));
        assert(!dup_before(names, 2));
        assert(first_dup_from(names, 3) is None);
        assert(first_dup_from(names, 2) is None);
        assert(first_dup_from(names, 1) is None);
        assert(first_dup_from(names, 0) is None);
    }
    match bootstrap(mods) {
        Result::Ok(b) => Result::Ok(b),
        Result::Err(e) => {
            proof {
                assert(false);
            }
            Result::Err(e)
        },
    }
}

} // verus!
