//! The ACL form: the rules as the user edits them, and the conversions
//! between that form and the ACL section of the configuration.

use vstd::prelude::*;

use crate::tftp::config::{AclConfig, AclRuleConfig};
use crate::tftp::text::{
    join, join_strings, lemma_list_items_join, list_items, plain_item, split_list, views,
};

verus! {

broadcast use vstd::string::group_string_axioms;

/// The ACL form.
pub struct AclState {
    pub mode: String,
    pub rules: Vec<AclRuleEdit>,
    pub new_action: String,
    pub new_source: String,
    pub new_ops: String,
    pub new_comment: String,
    pub dirty: bool,
    pub status_message: String,
}

/// One rule of the form; the operations are one comma-separated text.
#[derive(Clone)]
pub struct AclRuleEdit {
    pub action: String,
    pub source: String,
    pub operations: String,
    pub comment: String,
    pub enabled: bool,
}

/// Whether `ipnet` reads the text as a network (`<ipnet::IpNet as FromStr>`):
/// an IPv4 or IPv6 address, a `/` and a prefix length that fits it.
pub uninterp spec fn ip_net_accepts(s: Seq<char>) -> bool;

/// Calls `<ipnet::IpNet as FromStr>::from_str` and reports whether it
/// succeeded. The result depends on the text alone.
#[verifier::external_body]
fn parses_as_ip_net(s: &str) -> (r: bool)
    ensures
        r == ip_net_accepts(s@),
{
    s.parse::<ipnet::IpNet>().is_ok()
}

/// Whether a source is a network or a single address: not empty, and either
/// `ipnet` reads it as a network or (as `is_address` says) it is an address.
pub open spec fn spec_valid_source(source: Seq<char>, is_address: bool) -> bool {
    source.len() > 0 && (ip_net_accepts(source) || is_address)
}

/// Whether `source` may stand as the source of a rule. `is_address` says
/// whether the text reads as a single IP address (`std::net::IpAddr`).
pub fn is_valid_cidr_input(source: &str, is_address: bool) -> (r: bool)
    ensures
        r == spec_valid_source(source@, is_address),
{
    if source.unicode_len() == 0 {
        return false;
    }
    parses_as_ip_net(source) || is_address
}

impl AclRuleEdit {
    /// Whether this rule's source is a network or a single address; see
    /// [`is_valid_cidr_input`].
    pub fn is_valid_cidr(&self, is_address: bool) -> (r: bool)
        ensures
            r == spec_valid_source(self.source@, is_address),
    {
        is_valid_cidr_input(self.source.as_str(), is_address)
    }
}

/// The form row of a configured rule: operations joined with ", ", enabled.
pub open spec fn edit_of_rule(e: AclRuleEdit, r: AclRuleConfig) -> bool {
    &&& e.action@ == r.action@
    &&& e.source@ == r.source@
    &&& e.operations@ == join(views(r.operations@), ", "@)
    &&& e.comment@ == r.comment@
    &&& e.enabled
}

/// The configured rule of a form row: the operations text split on commas,
/// each item trimmed, empty items dropped.
pub open spec fn rule_of_edit(r: AclRuleConfig, e: AclRuleEdit) -> bool {
    &&& r.action@ == e.action@
    &&& r.source@ == e.source@
    &&& views(r.operations@) == list_items(e.operations@)
    &&& r.comment@ == e.comment@
}

/// The rows of the form that are enabled, in order.
pub open spec fn enabled_rules(rules: Seq<AclRuleEdit>) -> Seq<AclRuleEdit>
    decreases rules.len(),
{
    if rules.len() == 0 {
        Seq::empty()
    } else {
        let rest = enabled_rules(rules.drop_last());
        if rules.last().enabled {
            rest.push(rules.last())
        } else {
            rest
        }
    }
}

impl AclState {
    /// The form for the ACL section of a configuration: every rule enabled,
    /// a new rule that allows reads prepared.
    pub fn from_config(config: &AclConfig) -> (r: Self)
        ensures
            r.mode@ == config.mode@,
            r.rules@.len() == config.rules@.len(),
            forall|i: int|
                0 <= i < r.rules@.len() ==> edit_of_rule(#[trigger] r.rules@[i], config.rules@[i]),
            r.new_action@ == "allow"@,
            r.new_source@.len() == 0,
            r.new_ops@ == "read"@,
            r.new_comment@.len() == 0,
            !r.dirty,
            r.status_message@.len() == 0,
    {
        let mut rules: Vec<AclRuleEdit> = Vec::new();
        let mut i: usize = 0;
        while i < config.rules.len()
            invariant
                i <= config.rules@.len(),
                rules@.len() == i,
                forall|k: int|
                    0 <= k < i ==> edit_of_rule(#[trigger] rules@[k], config.rules@[k]),
            decreases config.rules.len() - i,
        {
            let r = &config.rules[i];
            rules.push(
                AclRuleEdit {
                    action: r.action.clone(),
                    source: r.source.clone(),
                    operations: join_strings(&r.operations, ", "),
                    comment: r.comment.clone(),
                    enabled: true,
                },
            );
            i = i + 1;
        }
        AclState {
            mode: config.mode.clone(),
            rules,
            new_action: "allow".to_string(),
            new_source: String::new(),
            new_ops: "read".to_string(),
            new_comment: String::new(),
            dirty: false,
            status_message: String::new(),
        }
    }

    /// The ACL section that the form describes: the enabled rows, in order.
    pub fn to_config(&self) -> (r: AclConfig)
        ensures
            r.mode@ == self.mode@,
            r.rules@.len() == enabled_rules(self.rules@).len(),
            forall|i: int|
                0 <= i < r.rules@.len() ==> rule_of_edit(
                    #[trigger] r.rules@[i],
                    enabled_rules(self.rules@)[i],
                ),
    {
        let mut out: Vec<AclRuleConfig> = Vec::new();
        let mut i: usize = 0;
        while i < self.rules.len()
            invariant
                i <= self.rules@.len(),
                out@.len() == enabled_rules(self.rules@.take(i as int)).len(),
                forall|k: int|
                    0 <= k < out@.len() ==> rule_of_edit(
                        #[trigger] out@[k],
                        enabled_rules(self.rules@.take(i as int))[k],
                    ),
            decreases self.rules.len() - i,
        {
            let ghost before = self.rules@.take(i as int);
            assert(self.rules@.take(i + 1).drop_last() =~= before);
            let e = &self.rules[i];
            if e.enabled {
                out.push(
                    AclRuleConfig {
                        action: e.action.clone(),
                        source: e.source.clone(),
                        operations: split_list(e.operations.as_str()),
                        comment: e.comment.clone(),
                    },
                );
            }
            i = i + 1;
        }
        assert(self.rules@.take(self.rules@.len() as int) =~= self.rules@);
        AclConfig { mode: self.mode.clone(), rules: out }
    }
}


impl AclState {
    /// Whether the prepared rule may be added: its source is a network or
    /// (as `is_address` says) an address.
    pub fn can_add(&self, is_address: bool) -> (r: bool)
        ensures
            r == spec_valid_source(self.new_source@, is_address),
    {
        is_valid_cidr_input(self.new_source.as_str(), is_address)
    }

    /// Add the prepared rule at the end, enabled, when it may be added; the
    /// source and comment fields are then cleared for the next rule.
    pub fn add_new_rule(&mut self, is_address: bool) -> (added: bool)
        ensures
            added == spec_valid_source(old(self).new_source@, is_address),
            added ==> final(self).rules@ == old(self).rules@.push(
                AclRuleEdit {
                    action: old(self).new_action,
                    source: old(self).new_source,
                    operations: old(self).new_ops,
                    comment: old(self).new_comment,
                    enabled: true,
                },
            ),
            added ==> final(self).new_source@.len() == 0 && final(self).new_comment@.len() == 0,
            added ==> final(self).dirty,
            added ==> final(self).mode == old(self).mode && final(self).new_action
                == old(self).new_action && final(self).new_ops == old(self).new_ops
                && final(self).status_message == old(self).status_message,
            !added ==> *final(self) == *old(self),
    {
        if !self.can_add(is_address) {
            return false;
        }
        self.rules.push(
            AclRuleEdit {
                action: self.new_action.clone(),
                source: self.new_source.clone(),
                operations: self.new_ops.clone(),
                comment: self.new_comment.clone(),
                enabled: true,
            },
        );
        self.new_source = String::new();
        self.new_comment = String::new();
        self.dirty = true;
        true
    }

    /// Exchange rows `a` and `b` (the Up and Down buttons).
    pub fn swap_rules(&mut self, a: usize, b: usize)
        requires
            a < old(self).rules@.len(),
            b < old(self).rules@.len(),
        ensures
            final(self).rules@ == old(self).rules@.update(a as int, old(self).rules@[b as int]).update(
                b as int,
                old(self).rules@[a as int],
            ),
            final(self).dirty,
            final(self).mode == old(self).mode,
            final(self).status_message == old(self).status_message,
    {
        if a < b {
            let y = self.rules.remove(b);
            let x = self.rules.remove(a);
            self.rules.insert(a, y);
            self.rules.insert(b, x);
        } else if b < a {
            let x = self.rules.remove(a);
            let y = self.rules.remove(b);
            self.rules.insert(b, x);
            self.rules.insert(a, y);
        }
        self.dirty = true;
        proof {
            assert(self.rules@ =~= old(self).rules@.update(a as int, old(self).rules@[b as int]).update(
                b as int,
                old(self).rules@[a as int],
            ));
        }
    }

    /// Remove row `i` (the X button).
    pub fn remove_rule(&mut self, i: usize)
        requires
            i < old(self).rules@.len(),
        ensures
            final(self).rules@ == old(self).rules@.remove(i as int),
            final(self).dirty,
            final(self).mode == old(self).mode,
            final(self).status_message == old(self).status_message,
    {
        self.rules.remove(i);
        self.dirty = true;
    }

    /// Record that the form was applied: nothing is pending any more, and the
    /// status says where the configuration was saved, or why saving failed.
    pub fn mark_applied(&mut self, saved: Result<String, String>)
        ensures
            !final(self).dirty,
            final(self).status_message@ == match saved {
                Ok(path) => "ACL applied & saved to "@ + path@,
                Err(e) => "ACL applied (save failed: "@ + e@ + ")"@,
            },
            final(self).rules == old(self).rules,
            final(self).mode == old(self).mode,
    {
        self.dirty = false;
        self.status_message = match saved {
            Ok(path) => {
                let mut m = "ACL applied & saved to ".to_string();
                m.append(path.as_str());
                m
            },
            Err(e) => {
                let mut m = "ACL applied (save failed: ".to_string();
                m.append(e.as_str());
                m.append(")");
                m
            },
        };
    }
}

proof fn lemma_all_enabled(rules: Seq<AclRuleEdit>)
    requires
        forall|i: int| 0 <= i < rules.len() ==> (#[trigger] rules[i]).enabled,
    ensures
        enabled_rules(rules) == rules,
    decreases rules.len(),
{
    if rules.len() > 0 {
        lemma_all_enabled(rules.drop_last());
        assert(rules.drop_last().push(rules.last()) =~= rules);
    }
}

/// The ACL section read back from the form that shows it is the section
/// itself: same mode, same rules in the same order, when every operation of
/// every rule is a plain item (not empty, no comma, no whitespace at either
/// end).
pub proof fn lemma_acl_form_roundtrip(config: AclConfig, form: AclState, back: AclConfig)
    requires
        form.mode@ == config.mode@,
        form.rules@.len() == config.rules@.len(),
        forall|i: int|
            0 <= i < form.rules@.len() ==> edit_of_rule(#[trigger] form.rules@[i], config.rules@[i]),
        back.mode@ == form.mode@,
        back.rules@.len() == enabled_rules(form.rules@).len(),
        forall|i: int|
            0 <= i < back.rules@.len() ==> rule_of_edit(
                #[trigger] back.rules@[i],
                enabled_rules(form.rules@)[i],
            ),
        forall|i: int, k: int|
            0 <= i < config.rules@.len() && 0 <= k < config.rules@[i].operations@.len()
                ==> plain_item((#[trigger] config.rules@[i].operations@[k])@),
    ensures
        back.mode@ == config.mode@,
        back.rules@.len() == config.rules@.len(),
        forall|i: int|
            0 <= i < back.rules@.len() ==> {
                &&& (#[trigger] back.rules@[i]).action@ == config.rules@[i].action@
                &&& back.rules@[i].source@ == config.rules@[i].source@
                &&& views(back.rules@[i].operations@) == views(config.rules@[i].operations@)
                &&& back.rules@[i].comment@ == config.rules@[i].comment@
            },
{
    assert forall|i: int| 0 <= i < form.rules@.len() implies (#[trigger] form.rules@[i]).enabled by {
        assert(edit_of_rule(form.rules@[i], config.rules@[i]));
    }
    lemma_all_enabled(form.rules@);
    assert forall|i: int| 0 <= i < back.rules@.len() implies {
        &&& (#[trigger] back.rules@[i]).action@ == config.rules@[i].action@
        &&& back.rules@[i].source@ == config.rules@[i].source@
        &&& views(back.rules@[i].operations@) == views(config.rules@[i].operations@)
        &&& back.rules@[i].comment@ == config.rules@[i].comment@
    } by {
        assert(edit_of_rule(form.rules@[i], config.rules@[i]));
        assert(rule_of_edit(back.rules@[i], form.rules@[i]));
        let ops = views(config.rules@[i].operations@);
        assert forall|k: int| 0 <= k < ops.len() implies plain_item(#[trigger] ops[k]) by {
            assert(ops[k] == config.rules@[i].operations@[k]@);
        }
        lemma_list_items_join(ops);
    }
}

} // verus!
