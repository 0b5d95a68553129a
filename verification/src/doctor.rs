//! `git workset doctor`: the checks on a repo's submodule plumbing, each a
//! decision from what was observed to the issue reported; the repair each
//! finding calls for (none for D5 and D6) and whether it is carried out
//! (only under `--fix`); and the edits that repair a clobbered
//! `core.worktree`.
use vstd::prelude::*;

use crate::config::SubmoduleSharing;
use crate::submodules::{
    apply_edit, apply_edits, effective_worktree, lemma_apply_edits_unfold, own_core_worktree_edit, supports_worktree_config,
    version_supports_worktree_config, ConfigEdit, ConfigEditView, ConfigFile, GitdirSettings,
};
use crate::text::{concat2, concat3, decimal, decimal_string, join, owned, seq_join};

verus! {

/// A problem found by the doctor.
pub struct Issue {
    /// The check that found it, `D1` to `D6`.
    pub code: &'static str,
    pub message: String,
    /// Whether `--fix` repaired it.
    pub fixed: bool,
}

impl Issue {
    /// A new, unrepaired issue.
    pub fn new(code: &'static str, message: String) -> (r: Issue)
        ensures
            r.code@ == code@,
            r.message@ == message@,
            !r.fixed,
    {
        Issue { code, message, fixed: false }
    }

    /// Record that the issue was repaired.
    pub fn mark_fixed(&mut self)
        ensures
            final(self).fixed,
            final(self).code@ == old(self).code@,
            final(self).message@ == old(self).message@,
    {
        self.fixed = true;
    }
}

/// D6: shared stores need git 2.20; reported when sharing is in force and the
/// installed git is known to be older.
pub fn version_issue(sharing: SubmoduleSharing, version: Option<(u32, u32)>) -> (r: Option<Issue>)
    ensures
        r is Some <==> (sharing == SubmoduleSharing::Shared && (version matches Some(v)
            && !supports_worktree_config(v))),
        r matches Some(i) ==> i.code@ == "D6"@ && !i.fixed && i.message@ == "git "@ + decimal(
            version->Some_0.0 as nat,
        ) + "."@ + decimal(version->Some_0.1 as nat)
            + " predates extensions.worktreeConfig (2.20). Shared submodule stores are unavailable — set submodules.sharing = \"isolated\"."@,
{
    if sharing != SubmoduleSharing::Shared {
        return None;
    }
    match version {
        Some(v) => {
            if version_supports_worktree_config(v) {
                None
            } else {
                let mut m = concat2("git ", decimal_string(v.0 as u64).as_str());
                m.append(".");
                m.append(decimal_string(v.1 as u64).as_str());
                m.append(
                    " predates extensions.worktreeConfig (2.20). Shared submodule stores are unavailable — set submodules.sharing = \"isolated\".",
                );
                Some(Issue::new("D6", m))
            }
        },
        None => None,
    }
}

/// D3: orphaned registrations in the superproject's worktree registry.
pub fn orphaned_registrations_issue(prunable: &Vec<String>) -> (r: Option<Issue>)
    ensures
        r is Some <==> prunable.len() > 0,
        r matches Some(i) ==> i.code@ == "D3"@ && !i.fixed && i.message@ == decimal(prunable.len() as nat)
            + " orphaned superproject worktree registration(s): "@ + seq_join(prunable.deep_view(), ", "@),
{
    if prunable.len() == 0 {
        return None;
    }
    let mut m = concat2(
        decimal_string(prunable.len() as u64).as_str(),
        " orphaned superproject worktree registration(s): ",
    );
    m.append(join(prunable, ", ").as_str());
    Some(Issue::new("D3", m))
}

/// D1: a submodule gitdir with `core.worktree` in its shared config while
/// more than one checkout uses it.
pub fn shared_core_worktree_issue(sub_path: &str, shared_has_core_worktree: bool, checkouts: usize) -> (r:
    Option<Issue>)
    ensures
        r is Some <==> (shared_has_core_worktree && checkouts > 1),
        r matches Some(i) ==> i.code@ == "D1"@ && !i.fixed && i.message@ == "submodule '"@ + sub_path@
            + "' has core.worktree in its shared config while "@ + decimal(checkouts as nat)
            + " checkouts use it — any `git submodule update` will redirect the others"@,
{
    if !(shared_has_core_worktree && checkouts > 1) {
        return None;
    }
    let mut m = concat3("submodule '", sub_path, "' has core.worktree in its shared config while ");
    m.append(decimal_string(checkouts as u64).as_str());
    m.append(" checkouts use it — any `git submodule update` will redirect the others");
    Some(Issue::new("D1", m))
}

/// D2: a checkout whose effective `core.worktree` does not resolve to itself.
pub fn clobbered_core_worktree_issue(checkout: &str, value: &str, resolves_to_checkout: bool) -> (r: Option<
    Issue,
>)
    ensures
        r is Some <==> !resolves_to_checkout,
        r matches Some(i) ==> i.code@ == "D2"@ && !i.fixed && i.message@ == "core.worktree for "@ + checkout@
            + " resolves to '"@ + value@ + "' instead of the checkout itself"@,
{
    if resolves_to_checkout {
        return None;
    }
    let mut m = concat3("core.worktree for ", checkout, " resolves to '");
    m.append(value);
    m.append("' instead of the checkout itself");
    Some(Issue::new("D2", m))
}

/// D3: orphaned registrations in a submodule gitdir's worktree registry.
pub fn orphaned_submodule_registrations_issue(sub_path: &str, prunable: &Vec<String>) -> (r: Option<Issue>)
    ensures
        r is Some <==> prunable.len() > 0,
        r matches Some(i) ==> i.code@ == "D3"@ && !i.fixed && i.message@ == "submodule '"@ + sub_path@
            + "' has "@ + decimal(prunable.len() as nat) + " orphaned worktree registration(s): "@
            + seq_join(prunable.deep_view(), ", "@),
{
    if prunable.len() == 0 {
        return None;
    }
    let mut m = concat3("submodule '", sub_path, "' has ");
    m.append(decimal_string(prunable.len() as u64).as_str());
    m.append(" orphaned worktree registration(s): ");
    m.append(join(prunable, ", ").as_str());
    Some(Issue::new("D3", m))
}

/// D4: a submodule checkout whose gitdir link no longer resolves.
pub fn broken_submodule_checkout_issue(checkout: &str) -> (i: Issue)
    ensures
        i.code@ == "D4"@,
        !i.fixed,
        i.message@ == "submodule checkout "@ + checkout@ + " does not resolve — its gitdir link is broken"@,
{
    Issue::new("D4", concat3("submodule checkout ", checkout, " does not resolve — its gitdir link is broken"))
}

/// D4: a superproject worktree whose link no longer resolves.
pub fn broken_worktree_issue(path: &str) -> (i: Issue)
    ensures
        i.code@ == "D4"@,
        !i.fixed,
        i.message@ == "worktree "@ + path@ + " does not resolve — run `git worktree repair`"@,
{
    Issue::new("D4", concat3("worktree ", path, " does not resolve — run `git worktree repair`"))
}

/// D5: duplicate (per-worktree) submodule object stores that shared mode
/// could reclaim; `size` is their total size as shown to the user.
pub fn duplicate_stores_issue(sharing: SubmoduleSharing, dupes: &Vec<String>, size: &str) -> (r: Option<Issue>)
    ensures
        r is Some <==> (sharing == SubmoduleSharing::Shared && dupes.len() > 0),
        r matches Some(i) ==> i.code@ == "D5"@ && !i.fixed && i.message@ == decimal(dupes.len() as nat)
            + " duplicate submodule object store(s) using "@ + size@
            + ". --fix cannot reclaim these; run `git workset sync --shared-submodules` in each worktree to migrate them:\n    "@
            + seq_join(dupes.deep_view(), "\n    "@),
{
    if sharing != SubmoduleSharing::Shared || dupes.len() == 0 {
        return None;
    }
    let mut m = concat2(decimal_string(dupes.len() as u64).as_str(), " duplicate submodule object store(s) using ");
    m.append(size);
    m.append(
        ". --fix cannot reclaim these; run `git workset sync --shared-submodules` in each worktree to migrate them:\n    ",
    );
    m.append(join(dupes, "\n    ").as_str());
    Some(Issue::new("D5", m))
}

/// The exit status of `doctor`: 1 when it found issues and was not asked to
/// fix them, 0 otherwise.
pub fn exit_status(issues: &Vec<Issue>, fix: bool) -> (code: i32)
    ensures
        code == (if !fix && issues.len() > 0 { 1i32 } else { 0i32 }),
{
    if !fix && issues.len() > 0 {
        1
    } else {
        0
    }
}

/// The edits that pin a checkout's `core.worktree` to `checkout`: enable
/// worktree config in the shared config, then record the path in the
/// checkout's per-worktree config.
pub open spec fn pin_edits(checkout: Seq<char>) -> Seq<ConfigEditView> {
    seq![
        ConfigEditView::Assign { file: ConfigFile::Shared, key: "extensions.worktreeConfig"@, value: "true"@ },
        ConfigEditView::Assign { file: ConfigFile::PerWorktree, key: "core.worktree"@, value: checkout },
    ]
}

/// The cleanup after pinning: for the main checkout, drop a shared value so
/// that checkouts without an override stop inheriting it.
pub open spec fn pin_cleanup(linked: bool, shared_has_core_worktree: bool) -> Option<ConfigEditView> {
    if !linked && shared_has_core_worktree {
        Some(ConfigEditView::Unset { file: ConfigFile::Shared, key: "core.worktree"@ })
    } else {
        None
    }
}

/// The view of an optional edit.
pub open spec fn opt_edit_view(e: Option<ConfigEdit>) -> Option<ConfigEditView> {
    match e {
        Some(x) => Some(x@),
        None => None,
    }
}

/// The repair of a clobbered `core.worktree` (D2): the pinning edits, and
/// the cleanup edit, which may fail without stopping the repair.
pub fn core_worktree_repair(linked: bool, shared_has_core_worktree: bool, checkout: &str) -> (r: (
    Vec<ConfigEdit>,
    Option<ConfigEdit>,
))
    ensures
        crate::submodules::edits_view(r.0@) == pin_edits(checkout@),
        opt_edit_view(r.1) == pin_cleanup(linked, shared_has_core_worktree),
{
    let edits = vec![
        ConfigEdit::Assign {
            file: ConfigFile::Shared,
            key: owned("extensions.worktreeConfig"),
            value: owned("true"),
        },
        own_core_worktree_edit(checkout),
    ];
    let cleanup = if !linked && shared_has_core_worktree {
        Some(ConfigEdit::Unset { file: ConfigFile::Shared, key: owned("core.worktree") })
    } else {
        None
    };
    proof {
        assert(crate::submodules::edits_view(edits@) =~~= pin_edits(checkout@));
    }
    (edits, cleanup)
}

/// After the D2 repair, whatever the cleanup did, git resolves the checkout
/// to the recorded path.
pub proof fn law_repair_pins_checkout(
    s: GitdirSettings,
    checkout: Seq<char>,
    linked: bool,
    shared_has_core_worktree: bool,
    cleanup_applied: bool,
)
    requires
        checkout.len() > 0,
    ensures
        ({
            let pinned = apply_edits(s, pin_edits(checkout));
            let after = match pin_cleanup(linked, shared_has_core_worktree) {
                Some(e) => if cleanup_applied { apply_edit(pinned, e) } else { pinned },
                None => pinned,
            };
            effective_worktree(after) == Some(checkout)
        }),
{
    reveal_strlit("true");
    reveal_strlit("core.worktree");
    reveal_strlit("extensions.worktreeConfig");
    assert("core.worktree"@ != "extensions.worktreeConfig"@) by {
        assert("core.worktree"@.len() != "extensions.worktreeConfig"@.len());
    }
    assert("true"@.len() == 4);
    lemma_apply_edits_unfold(s, pin_edits(checkout));
}

/// The repair the doctor carries out for an issue under `--fix`.
pub enum DoctorRepair {
    /// `git worktree prune` in the superproject (D3).
    PruneSuperproject,
    /// Harden the submodule gitdir, pinning its main checkout (D1).
    Harden { gitdir: String, main_checkout: String },
    /// Apply the edits that pin a checkout's `core.worktree`; the cleanup
    /// edit may fail without stopping the repair (D2).
    PinCheckout { edits: Vec<ConfigEdit>, cleanup: Option<ConfigEdit> },
    /// `worktree prune` in a submodule gitdir (D3).
    PruneSubmodule { gitdir: String },
    /// `git worktree repair` in the superproject and, when given, in a
    /// submodule gitdir; failures are ignored (D4).
    RepairLinks { submodule_gitdir: Option<String> },
}

/// What a check found, with what its repair needs.
pub enum Finding {
    /// D6: the installed git is too old for shared stores.
    OldGit,
    /// D3: orphaned registrations in the superproject.
    OrphanedRegistrations,
    /// D1: `core.worktree` in a shared submodule config.
    SharedCoreWorktree { gitdir: String, main_checkout: String },
    /// D2: a checkout whose `core.worktree` resolves elsewhere; `checkout`
    /// is its absolute path.
    ClobberedCoreWorktree { linked: bool, shared_has_core_worktree: bool, checkout: String },
    /// D3: orphaned registrations in a submodule gitdir.
    OrphanedSubmoduleRegistrations { gitdir: String },
    /// D4: a submodule checkout whose gitdir link is broken.
    BrokenSubmoduleCheckout { gitdir: String },
    /// D4: a superproject worktree whose link is broken.
    BrokenWorktree,
    /// D5: duplicate submodule object stores.
    DuplicateStores,
}

/// The check that reports a finding.
pub open spec fn finding_code(f: Finding) -> Seq<char> {
    match f {
        Finding::OldGit => "D6"@,
        Finding::OrphanedRegistrations => "D3"@,
        Finding::SharedCoreWorktree { .. } => "D1"@,
        Finding::ClobberedCoreWorktree { .. } => "D2"@,
        Finding::OrphanedSubmoduleRegistrations { .. } => "D3"@,
        Finding::BrokenSubmoduleCheckout { .. } => "D4"@,
        Finding::BrokenWorktree => "D4"@,
        Finding::DuplicateStores => "D5"@,
    }
}

/// Whether `--fix` has a repair for a finding: every one but D5 (which only
/// `sync` can reclaim) and D6 (which needs a newer git).
pub open spec fn has_repair(f: Finding) -> bool {
    !(f is OldGit || f is DuplicateStores)
}

/// The repair for a finding: prune the superproject's registrations (D3),
/// harden the submodule gitdir pinning its main checkout (D1), pin the
/// checkout's own `core.worktree` (D2), prune the submodule gitdir's
/// registrations (D3), repair the worktree links of the superproject and,
/// for a submodule checkout, of its gitdir (D4); none for D5 and D6.
pub fn repair_for(finding: Finding) -> (r: Option<DoctorRepair>)
    ensures
        r is Some <==> has_repair(finding),
        finding is OrphanedRegistrations ==> r == Some(DoctorRepair::PruneSuperproject),
        finding matches Finding::SharedCoreWorktree { gitdir, main_checkout } ==> r == Some(
            DoctorRepair::Harden { gitdir, main_checkout },
        ),
        finding matches Finding::ClobberedCoreWorktree { linked, shared_has_core_worktree, checkout } ==> (
        r matches Some(DoctorRepair::PinCheckout { edits, cleanup }) && crate::submodules::edits_view(edits@)
            == pin_edits(checkout@) && opt_edit_view(cleanup) == pin_cleanup(linked, shared_has_core_worktree)),
        finding matches Finding::OrphanedSubmoduleRegistrations { gitdir } ==> r == Some(
            DoctorRepair::PruneSubmodule { gitdir },
        ),
        finding matches Finding::BrokenSubmoduleCheckout { gitdir } ==> r == Some(
            DoctorRepair::RepairLinks { submodule_gitdir: Some(gitdir) },
        ),
        finding is BrokenWorktree ==> r == Some(DoctorRepair::RepairLinks { submodule_gitdir: None }),
{
    match finding {
        Finding::OldGit => None,
        Finding::OrphanedRegistrations => Some(DoctorRepair::PruneSuperproject),
        Finding::SharedCoreWorktree { gitdir, main_checkout } => Some(DoctorRepair::Harden { gitdir, main_checkout }),
        Finding::ClobberedCoreWorktree { linked, shared_has_core_worktree, checkout } => {
            let (edits, cleanup) = core_worktree_repair(linked, shared_has_core_worktree, checkout.as_str());
            Some(DoctorRepair::PinCheckout { edits, cleanup })
        },
        Finding::OrphanedSubmoduleRegistrations { gitdir } => Some(DoctorRepair::PruneSubmodule { gitdir }),
        Finding::BrokenSubmoduleCheckout { gitdir } => Some(
            DoctorRepair::RepairLinks { submodule_gitdir: Some(gitdir) },
        ),
        Finding::BrokenWorktree => Some(DoctorRepair::RepairLinks { submodule_gitdir: None }),
        Finding::DuplicateStores => None,
    }
}

/// Under `--fix`, exactly the findings of checks D1 to D4 are repaired;
/// those of D5 and D6 never are, and without `--fix` none is.
pub proof fn law_fix_repairs_exactly_d1_to_d4(f: Finding, fix: bool)
    ensures
        repairs(fix, has_repair(f)) <==> (fix && (finding_code(f) == "D1"@ || finding_code(f) == "D2"@
            || finding_code(f) == "D3"@ || finding_code(f) == "D4"@)),
{
    reveal_strlit("D1");
    reveal_strlit("D2");
    reveal_strlit("D3");
    reveal_strlit("D4");
    reveal_strlit("D5");
    reveal_strlit("D6");
    assert("D5"@[1] != "D1"@[1] && "D5"@[1] != "D2"@[1] && "D5"@[1] != "D3"@[1] && "D5"@[1] != "D4"@[1]);
    assert("D6"@[1] != "D1"@[1] && "D6"@[1] != "D2"@[1] && "D6"@[1] != "D3"@[1] && "D6"@[1] != "D4"@[1]);
}

/// Whether a repair is carried out: only under `--fix`, and only for an
/// issue that has one.
pub open spec fn repairs(fix: bool, has_repair: bool) -> bool {
    fix && has_repair
}

/// What the doctor does with an issue it found: without `--fix` it reports
/// it as found; with `--fix` and a repair for it, it carries the repair out
/// and reports the issue fixed; an issue without a repair is reported as
/// found either way.
pub fn respond(issue: Issue, repair: Option<DoctorRepair>, fix: bool) -> (r: (Issue, Option<DoctorRepair>))
    ensures
        r.1 is Some <==> repairs(fix, repair is Some),
        r.1 matches Some(a) ==> repair == Some(a),
        r.0.fixed == (issue.fixed || repairs(fix, repair is Some)),
        r.0.code@ == issue.code@,
        r.0.message@ == issue.message@,
{
    let mut issue = issue;
    if fix {
        match repair {
            Some(a) => {
                issue.mark_fixed();
                (issue, Some(a))
            },
            None => (issue, None),
        }
    } else {
        (issue, None)
    }
}

/// The superproject's worktree links are checked only when no submodule
/// checkout link was found broken (a repair of those covers both).
pub fn checks_superproject_links(submodule_link_broken: bool) -> (r: bool)
    ensures
        r == !submodule_link_broken,
{
    !submodule_link_broken
}

/// The doctor is read-only without `--fix`: no repair is ever planned and
/// no issue is marked fixed; with `--fix` exactly the issues that have a
/// repair are.
pub proof fn law_doctor_is_read_only_by_default(has_repair: bool)
    ensures
        !repairs(false, has_repair),
        repairs(true, has_repair) == has_repair,
{
}

} // verus!
