//! The declarative-firewall rule compiler: the platform variant that
//! expresses the whole block set as one named rule object scoped to the
//! game's executable.
//!
//! The rule's remote-address list is the comma-joined `addr/prefix` text of
//! every block, both address families uniformly; its direction is outbound,
//! its action is block, and its protocol is any. [`RuleSet`] models the
//! active rule set, restricted to the reserved name, so that install and
//! teardown can be reasoned about: at most one rule with that name is ever
//! present.

use vstd::prelude::*;

use crate::net::{spec_network_text, NetworkBlock};

verus! {

/// The reserved name of the rule object.
pub const RULE_NAME: &'static str = "ow2dropshiprs";

/// The single outbound block rule. Its fixed fields — direction outbound,
/// action block, protocol any — are what [`RuleSet::install`] always sets;
/// the varying fields are carried here.
#[derive(Debug)]
pub struct DeclarativeRule {
    /// The reserved rule name.
    pub name: String,
    /// The (empty) description.
    pub description: String,
    /// The path of the executable the rule is scoped to.
    pub application: String,
    /// The comma-joined `addr/prefix` list of the blocked networks.
    pub remote_addresses: String,
    /// Whether the rule is active.
    pub enabled: bool,
}

/// What a rule holds, as plain text.
pub ghost struct RuleView {
    pub name: Seq<char>,
    pub description: Seq<char>,
    pub application: Seq<char>,
    pub remote_addresses: Seq<char>,
    pub enabled: bool,
}

impl View for DeclarativeRule {
    type V = RuleView;

    open spec fn view(&self) -> RuleView {
        RuleView {
            name: self.name@,
            description: self.description@,
            application: self.application@,
            remote_addresses: self.remote_addresses@,
            enabled: self.enabled,
        }
    }
}

/// The comma-joined `addr/prefix` text of a block list, in order.
pub open spec fn spec_remote_list(blocks: Seq<NetworkBlock>) -> Seq<char>
    decreases blocks.len(),
{
    if blocks.len() == 0 {
        Seq::empty()
    } else if blocks.len() == 1 {
        spec_network_text(blocks[0])
    } else {
        spec_remote_list(blocks.drop_last()) + seq![','] + spec_network_text(blocks.last())
    }
}

/// The rule compiled from a block list and the game executable's path.
pub open spec fn spec_rule(blocks: Seq<NetworkBlock>, application: Seq<char>) -> RuleView {
    RuleView {
        name: RULE_NAME@,
        description: Seq::empty(),
        application,
        remote_addresses: spec_remote_list(blocks),
        enabled: true,
    }
}

/// Builds the rule object for a block list: reserved name, empty
/// description, the executable path, the joined remote-address list,
/// enabled.
pub fn build_rule(blocks: &Vec<NetworkBlock>, game_path: &str) -> (r: DeclarativeRule)
    ensures
        r@ == spec_rule(blocks@, game_path@),
{
    proof {
        reveal_strlit(",");
        reveal_strlit("");
    }
    let mut list = String::new();
    let mut i: usize = 0;
    while i < blocks.len()
        invariant
            i <= blocks@.len(),
            list@ == spec_remote_list(blocks@.take(i as int)),
        decreases blocks@.len() - i,
    {
        proof {
            reveal_strlit(",");
        }
        if i > 0 {
            list.append(",");
        }
        let text = crate::net::network_text(&blocks[i]);
        list.append(text.as_str());
        proof {
            let pre = blocks@.take(i as int);
            let post = blocks@.take(i + 1 as int);
            assert(post.drop_last() =~= pre);
            assert(post.last() == blocks@[i as int]);
            if i == 0 {
                assert(post.len() == 1);
                assert(post[0] == blocks@[0]);
                assert(list@ =~= spec_network_text(blocks@[0]));
            } else {
                assert(list@ =~= spec_remote_list(pre) + seq![','] + spec_network_text(
                    blocks@[i as int],
                ));
            }
        }
        i += 1;
    }
    proof {
        assert(blocks@.take(blocks@.len() as int) =~= blocks@);
    }
    DeclarativeRule {
        name: RULE_NAME.to_owned(),
        description: String::new(),
        application: game_path.to_owned(),
        remote_addresses: list,
        enabled: true,
    }
}

/// The active rule set, restricted to the reserved name: by construction at
/// most one such rule exists at a time.
pub struct RuleSet {
    pub rule: Option<DeclarativeRule>,
}

impl View for RuleSet {
    type V = Option<RuleView>;

    open spec fn view(&self) -> Option<RuleView> {
        match self.rule {
            Some(r) => Some(r@),
            None => None,
        }
    }
}

/// Removing the reserved rule by name leaves none, whatever was present;
/// removing an absent rule is a tolerated no-op.
pub open spec fn spec_rule_teardown(s: Option<RuleView>) -> Option<RuleView> {
    None
}

/// Installing replaces whatever rule was present by exactly the rule
/// compiled from the new block list.
pub open spec fn spec_rule_install(
    s: Option<RuleView>,
    blocks: Seq<NetworkBlock>,
    application: Seq<char>,
) -> Option<RuleView> {
    Some(spec_rule(blocks, application))
}

impl RuleSet {
    /// The state with no reserved rule present.
    pub fn empty() -> (s: Self)
        ensures
            s@ is None,
    {
        RuleSet { rule: None }
    }

    /// Removes the reserved rule, present or not.
    pub fn teardown(&mut self)
        ensures
            final(self)@ == spec_rule_teardown(old(self)@),
            final(self)@ is None,
    {
        self.rule = None;
    }

    /// The remove-then-add replace: deletes any rule with the reserved name
    /// (ignoring "not found"), then adds the rule compiled from `blocks` and
    /// `game_path`. The resulting state depends on the arguments alone.
    pub fn install(&mut self, blocks: &Vec<NetworkBlock>, game_path: &str)
        ensures
            final(self)@ == spec_rule_install(old(self)@, blocks@, game_path@),
    {
        self.rule = None;
        let rule = build_rule(blocks, game_path);
        self.rule = Some(rule);
    }
}

/// Law: installing and then tearing down leaves no rule object with the
/// reserved name.
pub proof fn lemma_rule_install_then_teardown(
    s: Option<RuleView>,
    blocks: Seq<NetworkBlock>,
    application: Seq<char>,
)
    ensures
        spec_rule_teardown(spec_rule_install(s, blocks, application)) is None,
{
}

/// Law: re-installing replaces the previous rule entirely; the rule set
/// after installing `b` over an earlier install of `a` is exactly that of a
/// fresh install of `b`.
pub proof fn lemma_rule_reinstall_replaces(
    s: Option<RuleView>,
    a: Seq<NetworkBlock>,
    b: Seq<NetworkBlock>,
    application: Seq<char>,
)
    ensures
        spec_rule_install(spec_rule_install(s, a, application), b, application) == spec_rule_install(
            s,
            b,
            application,
        ),
{
}

} // verus!
