//! The registry: which plugins are registered, under which token, and which
//! registrations are still alive.

use crate::channel::Reply;
use crate::error::ManagerError;
use crate::plugin::{Capability, Plugin};
use crate::text::{decimal_digits, format_unsigned, lemma_decimal_digits_differ};
use crate::token::AccessToken;
use vstd::prelude::*;

verus! {

/// The text of the token issued for the registration `serial`.
pub open spec fn token_text(serial: nat) -> Seq<char> {
    decimal_digits(serial)
}

/// One live registration, as the contracts see it.
pub struct Entry<F> {
    /// The text of the token issued for it.
    pub token: Seq<char>,
    /// Its serial: how many registrations were made before it.
    pub serial: nat,
    /// The descriptor it was made with.
    pub plugin: Capability<F>,
}

/// The registry as the contracts see it: the live registrations, oldest
/// first, and the number of registrations ever made.
pub struct Roster<F> {
    pub entries: Seq<Entry<F>>,
    pub issued: nat,
}

impl<F: Fn(String, String) -> Reply> Roster<F> {
    /// Whether a live registration holds `name`.
    pub open spec fn holds_name(self, name: Seq<char>) -> bool {
        exists|i: int| 0 <= i < self.entries.len() && #[trigger] self.entries[i].plugin.name == name
    }

    /// Whether a live registration holds `token`.
    pub open spec fn holds_token(self, token: Seq<char>) -> bool {
        exists|i: int| 0 <= i < self.entries.len() && #[trigger] self.entries[i].token == token
    }

    /// Whether the registration `serial` is alive.
    pub open spec fn live(self, serial: nat) -> bool {
        exists|i: int| 0 <= i < self.entries.len() && #[trigger] self.entries[i].serial == serial
    }

    /// Whether the plugin behind `capability` is alive.  A descriptor that no
    /// registry issued answers for itself and is always alive.
    pub open spec fn online(self, capability: Capability<F>) -> bool {
        match capability.registration {
            Some(serial) => self.live(serial),
            None => true,
        }
    }

    /// Serials grow with the order of registration and stay below the number
    /// of registrations made, each token is the text of its serial, no two
    /// live registrations hold one name, and each descriptor is well formed.
    pub open spec fn wf(self) -> bool {
        &&& forall|i: int|
            0 <= i < self.entries.len() ==> {
                &&& (#[trigger] self.entries[i]).serial < self.issued
                &&& self.entries[i].token == token_text(self.entries[i].serial)
                &&& self.entries[i].plugin.wf()
            }
        &&& forall|i: int, j: int|
            0 <= i < j < self.entries.len() ==> (#[trigger] self.entries[i]).serial < (
            #[trigger] self.entries[j]).serial
        &&& forall|i: int, j: int|
            0 <= i < j < self.entries.len() ==> (#[trigger] self.entries[i]).plugin.name != (
            #[trigger] self.entries[j]).plugin.name
    }

    /// The registry after `plugin` asked to be registered: unchanged where a
    /// live registration holds its name, else with one more registration,
    /// whose serial is the number of registrations made so far.
    pub open spec fn register(self, plugin: Capability<F>) -> Roster<F> {
        if self.holds_name(plugin.name) {
            self
        } else {
            Roster {
                entries: self.entries.push(
                    Entry { token: token_text(self.issued), serial: self.issued, plugin },
                ),
                issued: self.issued + 1,
            }
        }
    }

    /// The position of the registration that holds `token`.
    pub open spec fn position_of(self, token: Seq<char>) -> int {
        choose|i: int| 0 <= i < self.entries.len() && #[trigger] self.entries[i].token == token
    }

    /// The registry after the holder of `token` deregistered: without that
    /// registration, or unchanged where no live registration holds the token.
    pub open spec fn deregister(self, token: Seq<char>) -> Roster<F> {
        if self.holds_token(token) {
            Roster { entries: self.entries.remove(self.position_of(token)), issued: self.issued }
        } else {
            self
        }
    }

    /// The capability that a lookup of `name` gives: the descriptor of the
    /// live registration that holds the name, issued for that registration.
    pub open spec fn lookup(self, name: Seq<char>) -> Option<Capability<F>> {
        if self.holds_name(name) {
            let i = choose|i: int|
                0 <= i < self.entries.len() && #[trigger] self.entries[i].plugin.name == name;
            Some(self.entries[i].plugin.issued_for(self.entries[i].serial))
        } else {
            None
        }
    }
}

/// One change of the registry.
pub enum Change<F> {
    /// A plugin with this descriptor asks to be registered.
    Register(Capability<F>),
    /// The holder of this token deregisters.
    Deregister(Seq<char>),
}

impl<F: Fn(String, String) -> Reply> Roster<F> {
    /// Whether the registration `serial` was made and is no longer alive.
    pub open spec fn retired(self, serial: nat) -> bool {
        serial < self.issued && !self.live(serial)
    }

    /// The registry after one change.
    pub open spec fn changed(self, change: Change<F>) -> Roster<F> {
        match change {
            Change::Register(plugin) => self.register(plugin),
            Change::Deregister(token) => self.deregister(token),
        }
    }

    /// The registry after `changes`, in their order.
    pub open spec fn after(self, changes: Seq<Change<F>>) -> Roster<F>
        decreases changes.len(),
    {
        if changes.len() == 0 {
            self
        } else {
            self.after(changes.drop_last()).changed(changes.last())
        }
    }
}

/// One live registration.
pub struct Registration<F> {
    token: AccessToken,
    serial: u64,
    plugin: Plugin<F>,
}

impl<F> View for Registration<F> {
    type V = Entry<F>;

    closed spec fn view(&self) -> Entry<F> {
        Entry { token: self.token@, serial: self.serial as nat, plugin: self.plugin@ }
    }
}

/// The registry of plugins.
pub struct PluginRegistry<F> {
    entries: Vec<Registration<F>>,
    issued: u64,
}

impl<F> View for PluginRegistry<F> {
    type V = Roster<F>;

    closed spec fn view(&self) -> Roster<F> {
        Roster {
            entries: Seq::new(self.entries@.len(), |i: int| self.entries@[i]@),
            issued: self.issued as nat,
        }
    }
}

impl<F: Fn(String, String) -> Reply + Copy> PluginRegistry<F> {
    /// A registry in which nothing was ever registered.
    pub fn new() -> (registry: Self)
        ensures
            registry@.wf(),
            registry@ == (Roster { entries: Seq::<Entry<F>>::empty(), issued: 0 }),
    {
        let registry = PluginRegistry { entries: Vec::new(), issued: 0 };
        assert(registry@.entries =~= Seq::<Entry<F>>::empty());
        registry
    }

    /// How many registrations were ever made.
    pub fn issued(&self) -> (issued: u64)
        ensures
            issued == self@.issued,
    {
        self.issued
    }

    /// Whether the registration `serial` is alive.
    pub fn is_live(&self, serial: u64) -> (live: bool)
        ensures
            live == self@.live(serial as nat),
    {
        let mut i: usize = 0;
        while i < self.entries.len()
            invariant
                0 <= i <= self.entries.len(),
                forall|k: int| 0 <= k < i ==> (#[trigger] self@.entries[k]).serial != serial,
            decreases self.entries.len() - i,
        {
            if self.entries[i].serial == serial {
                assert(self@.entries[i as int].serial == serial);
                return true;
            }
            i += 1;
        }
        false
    }

    /// Finds the live registration that holds `name`.
    fn find_name(&self, name: &String) -> (found: Option<usize>)
        ensures
            match found {
                Some(i) => i < self@.entries.len() && self@.entries[i as int].plugin.name == name@,
                None => !self@.holds_name(name@),
            },
    {
        let mut i: usize = 0;
        while i < self.entries.len()
            invariant
                0 <= i <= self.entries.len(),
                forall|k: int| 0 <= k < i ==> (#[trigger] self@.entries[k]).plugin.name != name@,
            decreases self.entries.len() - i,
        {
            if *self.entries[i].plugin.name() == *name {
                assert(self@.entries[i as int].plugin.name == name@);
                return Some(i);
            }
            i += 1;
        }
        None
    }

    /// Finds the live registration that holds `token`.
    fn find_token(&self, token: &AccessToken) -> (found: Option<usize>)
        ensures
            match found {
                Some(i) => i < self@.entries.len() && self@.entries[i as int].token == token@,
                None => !self@.holds_token(token@),
            },
    {
        let mut i: usize = 0;
        while i < self.entries.len()
            invariant
                0 <= i <= self.entries.len(),
                forall|k: int| 0 <= k < i ==> (#[trigger] self@.entries[k]).token != token@,
            decreases self.entries.len() - i,
        {
            if self.entries[i].token.matches(token) {
                return Some(i);
            }
            i += 1;
        }
        None
    }

    /// Registers `plugin` and issues its token.  Refused with
    /// `DuplicateName` where a live plugin holds the name; the registry then
    /// stays as it was.
    pub fn register_plugin(&mut self, plugin: Plugin<F>) -> (r: Result<AccessToken, ManagerError>)
        requires
            old(self)@.wf(),
            old(self)@.issued < u64::MAX,
            plugin@.wf(),
        ensures
            final(self)@.wf(),
            final(self)@ == old(self)@.register(plugin@),
            final(self)@.holds_name(plugin@.name),
            match r {
                Ok(token) => {
                    &&& !old(self)@.holds_name(plugin@.name)
                    &&& token@ == token_text(old(self)@.issued)
                    &&& final(self)@.holds_token(token@)
                    &&& final(self)@.live(old(self)@.issued)
                },
                Err(e) => e == ManagerError::DuplicateName && old(self)@.holds_name(plugin@.name),
            },
    {
        if self.find_name(plugin.name()).is_some() {
            return Err(ManagerError::DuplicateName);
        }
        let ghost before = self@;
        let serial = self.issued;
        let token = AccessToken::new(format_unsigned(serial));
        self.entries.push(Registration { token: token.clone(), serial, plugin });
        self.issued = serial + 1;
        proof {
            assert(self@.entries =~= before.register(plugin@).entries);
            let last = self@.entries[before.entries.len() as int];
            assert(last.plugin.name == plugin@.name && last.token == token@ && last.serial
                == before.issued);
        }
        Ok(token)
    }

    /// A fresh capability for the plugin registered as `name`, or nothing
    /// where no live plugin holds that name.
    pub fn get_plugin(&self, name: &String) -> (r: Option<Plugin<F>>)
        requires
            self@.wf(),
        ensures
            match r {
                Some(capability) => {
                    &&& Some(capability@) == self@.lookup(name@)
                    &&& capability@.name == name@
                    &&& capability@.wf()
                    &&& self@.online(capability@)
                },
                None => self@.lookup(name@) is None && !self@.holds_name(name@),
            },
    {
        match self.find_name(name) {
            Some(i) => {
                let registration = &self.entries[i];
                proof {
                    let j = choose|j: int|
                        0 <= j < self@.entries.len() && #[trigger] self@.entries[j].plugin.name
                            == name@;
                    assert(j == i);
                    assert(self@.entries[i as int].serial == registration.serial);
                }
                Some(registration.plugin.renew(registration.serial))
            },
            None => None,
        }
    }

    /// Removes the registration that holds `access_token` and answers
    /// `true`; from then on the plugin is offline for every capability ever
    /// issued for it.  A token that no live registration holds, because it
    /// was never issued or its holder has deregistered already, changes
    /// nothing and is answered with `false`.
    pub fn deregister_plugin(&mut self, access_token: &AccessToken) -> (done: bool)
        requires
            old(self)@.wf(),
        ensures
            done == old(self)@.holds_token(access_token@),
            final(self)@.wf(),
            final(self)@ == old(self)@.deregister(access_token@),
            !final(self)@.holds_token(access_token@),
    {
        let ghost before = self@;
        match self.find_token(access_token) {
            Some(i) => {
                proof {
                    lemma_tokens_differ(before);
                    assert(before.position_of(access_token@) == i);
                }
                let _ = self.entries.remove(i);
                proof {
                    assert(self@.entries =~= before.entries.remove(i as int));
                    lemma_deregister_keeps_wf(before, access_token@);
                }
                true
            },
            None => false,
        }
    }
}

/// In a well-formed registry no two live registrations hold one token.
pub proof fn lemma_tokens_differ<F: Fn(String, String) -> Reply>(roster: Roster<F>)
    requires
        roster.wf(),
    ensures
        forall|i: int, j: int|
            0 <= i < roster.entries.len() && 0 <= j < roster.entries.len() && (
            #[trigger] roster.entries[i]).token == (#[trigger] roster.entries[j]).token ==> i == j,
{
    assert forall|i: int, j: int|
        0 <= i < roster.entries.len() && 0 <= j < roster.entries.len() && (
        #[trigger] roster.entries[i]).token == (#[trigger] roster.entries[j]).token implies i
        == j by {
        if i != j {
            let a = roster.entries[i].serial;
            let b = roster.entries[j].serial;
            if i < j {
                assert(a < b);
            } else {
                assert(b < a);
            }
            lemma_decimal_digits_differ(a, b);
        }
    }
}

/// Deregistering keeps a registry well formed and leaves no live holder of
/// the token.
pub proof fn lemma_deregister_keeps_wf<F: Fn(String, String) -> Reply>(
    roster: Roster<F>,
    token: Seq<char>,
)
    requires
        roster.wf(),
    ensures
        roster.deregister(token).wf(),
        !roster.deregister(token).holds_token(token),
{
    lemma_tokens_differ(roster);
    let after = roster.deregister(token);
    if roster.holds_token(token) {
        let p = roster.position_of(token);
        assert forall|i: int| 0 <= i < after.entries.len() implies #[trigger] after.entries[i]
            == roster.entries[if i < p {
            i
        } else {
            i + 1
        }] by {}
        assert forall|i: int| 0 <= i < after.entries.len() implies (
        #[trigger] after.entries[i]).token != token by {
            let k = if i < p {
                i
            } else {
                i + 1
            };
            assert(after.entries[i] == roster.entries[k]);
        }
    }
}

/// Registering keeps a registry well formed.
pub proof fn lemma_register_keeps_wf<F: Fn(String, String) -> Reply>(
    roster: Roster<F>,
    plugin: Capability<F>,
)
    requires
        roster.wf(),
        plugin.wf(),
    ensures
        roster.register(plugin).wf(),
{
    let after = roster.register(plugin);
    if !roster.holds_name(plugin.name) {
        assert forall|i: int, j: int| 0 <= i < j < after.entries.len() implies (
        #[trigger] after.entries[i]).plugin.name != (#[trigger] after.entries[j]).plugin.name by {
            if j == roster.entries.len() {
                assert(roster.entries[i].plugin.name != plugin.name);
            }
        }
    }
}

/// A registration that is retired stays retired through any one change: no
/// registration is ever made under a serial that was used before.
pub proof fn lemma_retired_stays_retired<F: Fn(String, String) -> Reply>(
    roster: Roster<F>,
    change: Change<F>,
    serial: nat,
)
    requires
        roster.retired(serial),
    ensures
        roster.changed(change).retired(serial),
{
    let after = roster.changed(change);
    if after.live(serial) {
        let i = choose|i: int|
            0 <= i < after.entries.len() && #[trigger] after.entries[i].serial == serial;
        match change {
            Change::Register(plugin) => {
                if i < roster.entries.len() {
                    assert(roster.entries[i].serial == serial);
                }
            },
            Change::Deregister(token) => {
                if roster.holds_token(token) {
                    let p = roster.position_of(token);
                    let k = if i < p {
                        i
                    } else {
                        i + 1
                    };
                    assert(roster.entries[k].serial == serial);
                }
            },
        }
    }
}

/// After a plugin deregistered, every capability that was ever issued for
/// that registration finds it offline, and keeps finding it offline whatever
/// is registered or deregistered afterwards, the plugin's own name included.
pub proof fn lemma_deregistered_is_offline_for_good<F: Fn(String, String) -> Reply>(
    roster: Roster<F>,
    token: Seq<char>,
    capability: Capability<F>,
    later: Seq<Change<F>>,
)
    requires
        roster.wf(),
        roster.holds_token(token),
        capability.registration == Some(roster.entries[roster.position_of(token)].serial),
    ensures
        !roster.deregister(token).after(later).online(capability),
        roster.deregister(token).after(later).retired(capability.registration->Some_0),
    decreases later.len(),
{
    let serial = roster.entries[roster.position_of(token)].serial;
    let gone = roster.deregister(token);
    if later.len() == 0 {
        let p = roster.position_of(token);
        if gone.live(serial) {
            let i = choose|i: int|
                0 <= i < gone.entries.len() && #[trigger] gone.entries[i].serial == serial;
            let k = if i < p {
                i
            } else {
                i + 1
            };
            assert(gone.entries[i] == roster.entries[k]);
            if k < p {
                assert(roster.entries[k].serial < roster.entries[p].serial);
            } else {
                assert(roster.entries[p].serial < roster.entries[k].serial);
            }
        }
    } else {
        lemma_deregistered_is_offline_for_good(roster, token, capability, later.drop_last());
        lemma_retired_stays_retired(gone.after(later.drop_last()), later.last(), serial);
    }
}

/// A token is issued once: whatever is registered or deregistered in
/// between, the token that the next registration gets differs from every
/// token that was issued before.
pub proof fn lemma_tokens_are_never_reissued<F: Fn(String, String) -> Reply>(
    roster: Roster<F>,
    changes: Seq<Change<F>>,
    earlier: nat,
)
    requires
        earlier < roster.issued,
    ensures
        roster.issued <= roster.after(changes).issued,
        token_text(roster.after(changes).issued) != token_text(earlier),
    decreases changes.len(),
{
    if changes.len() > 0 {
        lemma_tokens_are_never_reissued(roster, changes.drop_last(), earlier);
    }
    lemma_decimal_digits_differ(roster.after(changes).issued, earlier);
}

} // verus!
