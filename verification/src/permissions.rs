//! The permission gate: decides, from settings and a session-scoped budget,
//! whether a tool call may run, must be approved by the user, or is refused.

use vstd::prelude::*;

verus! {

/// The category a tool belongs to, for permission purposes.
#[derive(Clone, Copy, Debug, PartialEq, Eq, Structural)]
pub enum ToolCategory {
    Mcp,
}

/// The decision for one tool call.
#[derive(Debug, Clone)]
pub enum PermissionStatus {
    Allowed,
    RequiresPrompt,
    Denied(String),
}

/// The ghost mirror of `PermissionStatus`.
pub enum PermissionStatusView {
    Allowed,
    RequiresPrompt,
    Denied(Seq<char>),
}

impl View for PermissionStatus {
    type V = PermissionStatusView;

    open spec fn view(&self) -> PermissionStatusView {
        match self {
            PermissionStatus::Allowed => PermissionStatusView::Allowed,
            PermissionStatus::RequiresPrompt => PermissionStatusView::RequiresPrompt,
            PermissionStatus::Denied(reason) => PermissionStatusView::Denied(reason@),
        }
    }
}

/// The configured permission policy.  Cost is counted in cents.
#[derive(Debug, Clone)]
pub struct PermissionSettings {
    pub auto_approval_enabled: bool,
    pub granular_permissions: Vec<(ToolCategory, bool)>,
    pub max_requests: u32,
    pub max_cost_cents: u64,
}

/// Whether `perms` grants `cat`: the first entry for the category decides;
/// an absent category is not granted.
pub open spec fn category_granted(perms: Seq<(ToolCategory, bool)>, cat: ToolCategory) -> bool
    decreases perms,
{
    if perms.len() == 0 {
        false
    } else if perms[0].0 == cat {
        perms[0].1
    } else {
        category_granted(perms.subrange(1, perms.len() as int), cat)
    }
}

pub open spec fn request_limit_text() -> Seq<char> {
    "Request limit reached"@
}

pub open spec fn cost_limit_text() -> Seq<char> {
    "Cost limit reached"@
}

pub open spec fn category_denied_text() -> Seq<char> {
    "Auto-approval is on, but permission is denied for category: Mcp"@
}

/// The whole permission decision: the budget is checked first, then the
/// auto-approval policy; with auto-approval off, every call prompts.
pub open spec fn permission_decision(
    request_count: u32,
    cost_cents: u64,
    settings: PermissionSettings,
    cat: ToolCategory,
) -> PermissionStatusView {
    if request_count >= settings.max_requests {
        PermissionStatusView::Denied(request_limit_text())
    } else if cost_cents >= settings.max_cost_cents {
        PermissionStatusView::Denied(cost_limit_text())
    } else if settings.auto_approval_enabled {
        if category_granted(settings.granular_permissions@, cat) {
            PermissionStatusView::Allowed
        } else {
            PermissionStatusView::Denied(category_denied_text())
        }
    } else {
        PermissionStatusView::RequiresPrompt
    }
}

/// The session-scoped request/cost budget the permission policy tracks.
#[derive(Debug)]
pub struct PermissionManager {
    pub request_count: u32,
    pub current_cost_cents: u64,
}

impl PermissionManager {
    /// A fresh budget: nothing spent.
    pub fn new() -> (r: PermissionManager)
        ensures
            r.request_count == 0,
            r.current_cost_cents == 0,
    {
        PermissionManager { request_count: 0, current_cost_cents: 0 }
    }

    /// Decides whether a call of a tool in `cat` may run now, exactly as
    /// `permission_decision` says.
    #[verifier::loop_isolation(false)]
    pub fn check_permission(&self, settings: &PermissionSettings, cat: &ToolCategory) -> (r:
        PermissionStatus)
        ensures
            r@ == permission_decision(self.request_count, self.current_cost_cents, *settings, *cat),
    {
        if self.request_count >= settings.max_requests {
            return PermissionStatus::Denied("Request limit reached".to_owned());
        }
        if self.current_cost_cents >= settings.max_cost_cents {
            return PermissionStatus::Denied("Cost limit reached".to_owned());
        }
        if settings.auto_approval_enabled {
            let mut i: usize = 0;
            let perms = &settings.granular_permissions;
            while i < perms.len()
                invariant
                    0 <= i <= perms@.len(),
                    category_granted(perms@, *cat) == category_granted(
                        perms@.subrange(i as int, perms@.len() as int),
                        *cat,
                    ),
                decreases perms@.len() - i,
            {
                let ghost tail = perms@.subrange(i as int, perms@.len() as int);
                proof {
                    assert(tail[0] == perms@[i as int]);
                    assert(tail.subrange(1, tail.len() as int) =~= perms@.subrange(
                        i + 1 as int,
                        perms@.len() as int,
                    ));
                }
                if perms[i].0 == *cat {
                    if perms[i].1 {
                        return PermissionStatus::Allowed;
                    } else {
                        return PermissionStatus::Denied(
                            "Auto-approval is on, but permission is denied for category: Mcp"
                                .to_owned(),
                        );
                    }
                }
                i += 1;
            }
            proof {
                assert(perms@.subrange(perms@.len() as int, perms@.len() as int)
                    =~= Seq::<(ToolCategory, bool)>::empty());
            }
            PermissionStatus::Denied(
                "Auto-approval is on, but permission is denied for category: Mcp".to_owned(),
            )
        } else {
            PermissionStatus::RequiresPrompt
        }
    }

    /// Notes one more request against the budget.
    pub fn note_request(&mut self)
        ensures
            final(self).request_count == if old(self).request_count < u32::MAX {
                old(self).request_count + 1
            } else {
                old(self).request_count as int
            },
            final(self).current_cost_cents == old(self).current_cost_cents,
    {
        if self.request_count < u32::MAX {
            self.request_count = self.request_count + 1;
        }
    }
}

} // verus!
