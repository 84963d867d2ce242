//! The update plan: live per-source update lists, merged error lists, and
//! the capacity verdict, assembled in one linear pass. Each source's
//! failures are isolated: they join the shared error list without stopping
//! the other sources.

use vstd::prelude::*;

verus! {

use vstd::string::StringExecFns;
use crate::config::SpacePolicy;
use crate::fwupd::FwupdUpdate;
use crate::space::CapacityCheck;
use crate::text;

/// The plan subcommand's switches.
#[derive(Debug)]
pub struct PlanCommand {
    pub config: Option<String>,
    pub manifest: Option<String>,
    pub plan: Option<String>,
    pub json: bool,
    pub strict: bool,
    pub offline: bool,
    pub no_repo: bool,
    pub no_aur: bool,
    pub with_flatpak: bool,
    pub with_fwupd: bool,
}

/// One pending update from the repository or the archive helper.
#[derive(Debug)]
pub struct PlanUpdate {
    pub name: String,
    pub installed: String,
    pub available: String,
}

/// Mathematical model of a `PlanUpdate`.
pub ghost struct PlanUpdateModel {
    pub name: Seq<char>,
    pub installed: Seq<char>,
    pub available: Seq<char>,
}

impl View for PlanUpdate {
    type V = PlanUpdateModel;

    open spec fn view(&self) -> PlanUpdateModel {
        PlanUpdateModel {
            name: self.name@,
            installed: self.installed@,
            available: self.available@,
        }
    }
}

impl DeepView for PlanUpdate {
    type V = PlanUpdateModel;

    open spec fn deep_view(&self) -> PlanUpdateModel {
        self.view()
    }
}

/// One pending update from the application remote.
#[derive(Debug)]
pub struct FlatpakPlanUpdate {
    pub name: String,
    pub branch: String,
    pub origin: String,
    pub available: String,
}

/// Mathematical model of a `FlatpakPlanUpdate`.
pub ghost struct FlatpakPlanUpdateModel {
    pub name: Seq<char>,
    pub branch: Seq<char>,
    pub origin: Seq<char>,
    pub available: Seq<char>,
}

impl View for FlatpakPlanUpdate {
    type V = FlatpakPlanUpdateModel;

    open spec fn view(&self) -> FlatpakPlanUpdateModel {
        FlatpakPlanUpdateModel {
            name: self.name@,
            branch: self.branch@,
            origin: self.origin@,
            available: self.available@,
        }
    }
}

impl DeepView for FlatpakPlanUpdate {
    type V = FlatpakPlanUpdateModel;

    open spec fn deep_view(&self) -> FlatpakPlanUpdateModel {
        self.view()
    }
}

/// The update one pending-update line denotes, if any: at least four
/// columns with an arrow in the third.
pub open spec fn spec_update_line(line: Seq<char>) -> Option<PlanUpdateModel> {
    let t = text::split_ws(line);
    if t.len() >= 4 && t[2] == "->"@ {
        Some(PlanUpdateModel { name: t[0], installed: t[1], available: t[3] })
    } else {
        None
    }
}

/// The updates in a pending-update listing, in line order.
pub open spec fn spec_parse_update_lines(lines: Seq<Seq<char>>) -> Seq<PlanUpdateModel>
    decreases lines.len(),
{
    if lines.len() == 0 {
        Seq::empty()
    } else {
        let init = spec_parse_update_lines(lines.drop_last());
        match spec_update_line(lines.last()) {
            Some(u) => init.push(u),
            None => init,
        }
    }
}

/// Parse the `name old -> new` lines the repository and archive helpers
/// print for pending updates.
pub fn parse_update_lines(output: &str) -> (r: Vec<PlanUpdate>)
    ensures
        r.deep_view() == spec_parse_update_lines(text::split_char(output@, '\n')),
{
    let lines = text::lines_of(output);
    let mut r: Vec<PlanUpdate> = Vec::new();
    let mut i: usize = 0;
    proof {
        assert(lines.deep_view().take(0) =~= Seq::<Seq<char>>::empty());
        assert(r.deep_view() =~= Seq::<PlanUpdateModel>::empty());
    }
    while i < lines.len()
        invariant
            i <= lines@.len(),
            lines.deep_view() == text::split_char(output@, '\n'),
            r.deep_view() =~= spec_parse_update_lines(lines.deep_view().take(i as int)),
        decreases lines@.len() - i,
    {
        let tokens = text::split_str_ws(lines[i].as_str());
        proof {
            let lv = lines.deep_view();
            assert(lines@[i as int]@ == lv[i as int]);
            assert(lv.take(i + 1).drop_last() =~= lv.take(i as int));
            assert(lv.take(i + 1).last() == lv[i as int]);
            if tokens@.len() >= 4 {
                assert(tokens.deep_view()[0] == tokens@[0]@);
                assert(tokens.deep_view()[1] == tokens@[1]@);
                assert(tokens.deep_view()[2] == tokens@[2]@);
                assert(tokens.deep_view()[3] == tokens@[3]@);
            }
        }
        if tokens.len() >= 4 && crate::pacman::str_eq(tokens[2].as_str(), "->") {
            let name = tokens[0].clone();
            let installed = tokens[1].clone();
            let available = tokens[3].clone();
            let ghost before = r.deep_view();
            r.push(PlanUpdate { name, installed, available });
            proof {
                assert(r.deep_view() =~= before.push(r.deep_view().last()));
            }
        }
        i = i + 1;
    }
    proof {
        assert(lines.deep_view().take(lines@.len() as int) =~= lines.deep_view());
    }
    r
}

/// The update one application-remote listing line denotes, if any: at
/// least three columns, the fourth optional.
pub open spec fn spec_flatpak_line(line: Seq<char>) -> Option<FlatpakPlanUpdateModel> {
    let t = text::split_ws(line);
    if t.len() >= 3 {
        Some(
            FlatpakPlanUpdateModel {
                name: t[0],
                branch: t[1],
                origin: t[2],
                available: if t.len() >= 4 {
                    t[3]
                } else {
                    Seq::empty()
                },
            },
        )
    } else {
        None
    }
}

/// The updates in an application-remote listing, in line order.
pub open spec fn spec_parse_flatpak_lines(lines: Seq<Seq<char>>) -> Seq<FlatpakPlanUpdateModel>
    decreases lines.len(),
{
    if lines.len() == 0 {
        Seq::empty()
    } else {
        let init = spec_parse_flatpak_lines(lines.drop_last());
        match spec_flatpak_line(lines.last()) {
            Some(u) => init.push(u),
            None => init,
        }
    }
}

/// Parse the column lines the application remote prints for pending
/// updates.
pub fn parse_flatpak_update_lines(output: &str) -> (r: Vec<FlatpakPlanUpdate>)
    ensures
        r.deep_view() == spec_parse_flatpak_lines(text::split_char(output@, '\n')),
{
    let lines = text::lines_of(output);
    let mut r: Vec<FlatpakPlanUpdate> = Vec::new();
    let mut i: usize = 0;
    proof {
        assert(lines.deep_view().take(0) =~= Seq::<Seq<char>>::empty());
        assert(r.deep_view() =~= Seq::<FlatpakPlanUpdateModel>::empty());
    }
    while i < lines.len()
        invariant
            i <= lines@.len(),
            lines.deep_view() == text::split_char(output@, '\n'),
            r.deep_view() =~= spec_parse_flatpak_lines(lines.deep_view().take(i as int)),
        decreases lines@.len() - i,
    {
        let tokens = text::split_str_ws(lines[i].as_str());
        proof {
            let lv = lines.deep_view();
            assert(lines@[i as int]@ == lv[i as int]);
            assert(lv.take(i + 1).drop_last() =~= lv.take(i as int));
            assert(lv.take(i + 1).last() == lv[i as int]);
            if tokens@.len() >= 3 {
                assert(tokens.deep_view()[0] == tokens@[0]@);
                assert(tokens.deep_view()[1] == tokens@[1]@);
                assert(tokens.deep_view()[2] == tokens@[2]@);
                if tokens@.len() >= 4 {
                    assert(tokens.deep_view()[3] == tokens@[3]@);
                }
            }
        }
        if tokens.len() >= 3 {
            let available = if tokens.len() >= 4 {
                tokens[3].clone()
            } else {
                String::new()
            };
            let origin = tokens[2].clone();
            let branch = tokens[1].clone();
            let name = tokens[0].clone();
            let ghost before = r.deep_view();
            r.push(FlatpakPlanUpdate { name, branch, origin, available });
            proof {
                assert(r.deep_view() =~= before.push(r.deep_view().last()));
            }
        }
        i = i + 1;
    }
    proof {
        assert(lines.deep_view().take(lines@.len() as int) =~= lines.deep_view());
    }
    r
}

/// The sources a plan run consults, in processing order, as the command's
/// switches select them.
pub fn plan_sources(cmd: &PlanCommand) -> (r: Vec<String>)
    ensures
        r.deep_view() =~= spec_plan_sources(cmd.no_repo, cmd.no_aur, cmd.offline,
            cmd.with_flatpak, cmd.with_fwupd),
{
    let mut r: Vec<String> = Vec::new();
    if !cmd.no_repo {
        r.push("pacman".to_owned());
    }
    if !cmd.no_aur && !cmd.offline {
        r.push("aur".to_owned());
    }
    if cmd.with_flatpak {
        r.push("flatpak".to_owned());
    }
    if cmd.with_fwupd {
        r.push("fwupd".to_owned());
    }
    proof {
        assert(r.deep_view() =~= spec_plan_sources(cmd.no_repo, cmd.no_aur, cmd.offline,
            cmd.with_flatpak, cmd.with_fwupd));
    }
    r
}

/// The source list the switches select: repository, archive, application
/// remote, firmware, in that fixed order.
pub open spec fn spec_plan_sources(
    no_repo: bool,
    no_aur: bool,
    offline: bool,
    with_flatpak: bool,
    with_fwupd: bool,
) -> Seq<Seq<char>> {
    let a: Seq<Seq<char>> = if !no_repo {
        seq!["pacman"@]
    } else {
        Seq::empty()
    };
    let b: Seq<Seq<char>> = if !no_aur && !offline {
        a + seq!["aur"@]
    } else {
        a
    };
    let c: Seq<Seq<char>> = if with_flatpak {
        b + seq!["flatpak"@]
    } else {
        b
    };
    if with_fwupd {
        c + seq!["fwupd"@]
    } else {
        c
    }
}

/// The space block of a plan's metadata.
#[derive(Debug)]
pub struct SpaceVerdict {
    pub policy: String,
    pub min_free_bytes: u64,
    pub available_bytes: u64,
    pub checked_path: String,
    pub ok: bool,
    pub warning: Option<String>,
}

/// A full plan document.
#[derive(Debug)]
pub struct PlanDocument {
    pub generated_at: String,
    pub generated_by: String,
    pub plan_path: String,
    pub sources: Vec<String>,
    pub errors: Vec<String>,
    pub pacman_updates: Vec<PlanUpdate>,
    pub aur_updates: Vec<PlanUpdate>,
    pub flatpak_updates: Vec<FlatpakPlanUpdate>,
    pub fwupd_updates: Vec<FwupdUpdate>,
    pub space: Option<SpaceVerdict>,
    pub blocked: bool,
}

/// Move the elements of `b` to the end of `a`.
pub fn append_strings(a: &mut Vec<String>, b: Vec<String>)
    ensures
        final(a).deep_view() == old(a).deep_view() + b.deep_view(),
{
    let ghost olds = a.deep_view();
    let ghost bs = b.deep_view();
    let mut b = b;
    a.append(&mut b);
    proof {
        assert forall|k: int| 0 <= k < a.deep_view().len() implies a.deep_view()[k] == (olds
            + bs)[k] by {
            if k < olds.len() {
            } else {
            }
        }
        assert(a.deep_view() =~= olds + bs);
    }
}

/// Assemble the plan document from the per-source results, in processing
/// order: the error lists merge in source order, and the capacity verdict
/// folds in last — as a blocking synthetic error entry under the enforce
/// policy, as an advisory warning otherwise.
pub fn assemble_plan(
    cmd: &PlanCommand,
    generated_at: String,
    plan_path: String,
    pacman_updates: Vec<PlanUpdate>,
    pacman_errors: Vec<String>,
    aur_updates: Vec<PlanUpdate>,
    aur_errors: Vec<String>,
    flatpak_updates: Vec<FlatpakPlanUpdate>,
    flatpak_errors: Vec<String>,
    fwupd_updates: Vec<FwupdUpdate>,
    fwupd_errors: Vec<String>,
    policy: SpacePolicy,
    min_free_bytes: u64,
    capacity: Option<(CapacityCheck, String, u64)>,
) -> (r: PlanDocument)
    ensures
        r.generated_at@ == generated_at@,
        r.generated_by@ == "synsyu_core plan"@,
        r.plan_path@ == plan_path@,
        r.sources.deep_view() =~= spec_plan_sources(cmd.no_repo, cmd.no_aur, cmd.offline,
            cmd.with_flatpak, cmd.with_fwupd),
        r.pacman_updates.deep_view() == pacman_updates.deep_view(),
        r.aur_updates.deep_view() == aur_updates.deep_view(),
        r.flatpak_updates.deep_view() == flatpak_updates.deep_view(),
        r.fwupd_updates.deep_view() == fwupd_updates.deep_view(),
        // the error lists merge in source-processing order; a blocking
        // capacity shortfall appends one synthetic entry at the end
        r.errors.deep_view() == pacman_errors.deep_view() + aur_errors.deep_view()
            + flatpak_errors.deep_view() + fwupd_errors.deep_view() + (match capacity {
            Some((ref c, _, _)) => if c.blocking {
                match c.message {
                    Some(ref m) => seq![m@],
                    None => Seq::<Seq<char>>::empty(),
                }
            } else {
                Seq::<Seq<char>>::empty()
            },
            None => Seq::<Seq<char>>::empty(),
        }),
        // the run is blocked exactly when the capacity check blocks
        r.blocked == (match capacity {
            Some((ref c, _, _)) => c.blocking,
            None => false,
        }),
        // the space block reports the capacity check's outcome; a
        // shortfall surfaces as its warning
        match capacity {
            Some((ref c, ref path, avail)) => r.space matches Some(v) && v.policy@
                == policy.spec_label() && v.min_free_bytes == min_free_bytes && v.available_bytes
                == avail && v.checked_path@ == path@ && v.ok == c.ok && ((!c.ok && !c.blocking)
                ==> v.warning == c.message) && ((c.ok || c.blocking) ==> v.warning is None),
            None => r.space is None,
        },
{
    let sources = plan_sources(cmd);
    let mut errors: Vec<String> = Vec::new();
    proof {
        assert(errors.deep_view() =~= Seq::<Seq<char>>::empty());
        assert(Seq::<Seq<char>>::empty() + pacman_errors.deep_view()
            =~= pacman_errors.deep_view());
    }
    append_strings(&mut errors, pacman_errors);
    append_strings(&mut errors, aur_errors);
    append_strings(&mut errors, flatpak_errors);
    append_strings(&mut errors, fwupd_errors);
    let mut blocked = false;
    let space: Option<SpaceVerdict> = match capacity {
        Some((check, path, avail)) => {
            let ghost before = errors.deep_view();
            let warning: Option<String> = if check.blocking {
                blocked = true;
                match check.message {
                    Some(m) => {
                        let mut one: Vec<String> = Vec::new();
                        one.push(m);
                        proof {
                            assert(one.deep_view() =~= seq![one.deep_view()[0]]);
                        }
                        append_strings(&mut errors, one);
                        None
                    },
                    None => {
                        proof {
                            assert(errors.deep_view() + Seq::<Seq<char>>::empty()
                                =~= errors.deep_view());
                        }
                        None
                    },
                }
            } else if !check.ok {
                check.message
            } else {
                None
            };
            Some(
                SpaceVerdict {
                    policy: policy.label().to_owned(),
                    min_free_bytes,
                    available_bytes: avail,
                    checked_path: path,
                    ok: check.ok,
                    warning,
                },
            )
        },
        None => None,
    };
    PlanDocument {
        generated_at,
        generated_by: "synsyu_core plan".to_owned(),
        plan_path,
        sources,
        errors,
        pacman_updates,
        aur_updates,
        flatpak_updates,
        fwupd_updates,
        space,
        blocked,
    }
}

/// The process outcome of a plan run: non-zero when the run is blocked by
/// capacity, or when the caller asked for strictness and any error was
/// recorded.
pub fn plan_exit_code(strict: bool, error_count: usize, blocked: bool) -> (r: u8)
    ensures
        r == 0 <==> !(blocked || (strict && error_count > 0)),
        r == 0 || r == 1,
{
    if blocked || (strict && error_count > 0) {
        1
    } else {
        0
    }
}

} // verus!
