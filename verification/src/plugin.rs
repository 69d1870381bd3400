//! The capability: what one plugin holds to call another.

use crate::channel::{Reply, Request};
use crate::error::ManagerError;
use crate::registry::PluginRegistry;
use tokio::sync::mpsc;
use tokio::sync::oneshot;
use vstd::prelude::*;

verus! {

/// How a plugin is reached, as the contracts see it.
pub enum Mode<F> {
    /// By a call of the function it exposes.
    Direct(F),
    /// Through the request queue it serves.
    Queued,
    /// Not at all.
    Silent,
}

/// A capability as the contracts see it.
pub struct Capability<F> {
    pub name: Seq<char>,
    pub version: Seq<char>,
    /// The serial of the registration the capability was issued for; nothing
    /// for a descriptor that no registry issued.
    pub registration: Option<nat>,
    pub mode: Mode<F>,
}

/// Whether `f` can be called on every request.
pub open spec fn answers_all<F: Fn(String, String) -> Reply>(f: F) -> bool {
    forall|methode: String, args: String| #[trigger] call_requires(f, (methode, args))
}

impl<F: Fn(String, String) -> Reply> Capability<F> {
    /// A function that is called directly can be called on every request.
    pub open spec fn wf(self) -> bool {
        match self.mode {
            Mode::Direct(f) => answers_all(f),
            _ => true,
        }
    }

    /// Whether `interaction` is what `interact` gives for this request,
    /// with `online` telling whether the plugin is alive.  An offline plugin
    /// gives `Offline`, whatever its mode.  Online, a plugin that is called
    /// directly gives a reply of its function to this request; a queued
    /// plugin gives the request to be enqueued, with this method and these
    /// arguments; a plugin that cannot be reached gives `Disconnected`.
    pub open spec fn interacts<'a>(
        self,
        online: bool,
        methode: String,
        args: String,
        interaction: Interaction<'a>,
    ) -> bool {
        if !online {
            interaction == Interaction::Done(Err(ManagerError::Offline))
        } else {
            match self.mode {
                Mode::Direct(f) => interaction matches Interaction::Done(Ok(reply)) && call_ensures(
                    f,
                    (methode, args),
                    reply,
                ),
                Mode::Queued => interaction matches Interaction::Enqueue(_, request, _)
                    && request.0 == methode && request.1 == args,
                Mode::Silent => interaction == Interaction::Done(Err(ManagerError::Disconnected)),
            }
        }
    }

    /// Whether `delivery` is what `send` gives for this request, with
    /// `online` telling whether the plugin is alive.  An offline plugin
    /// gives `Offline`, whatever its mode.  Online, a plugin that is called
    /// directly gives a reply of its function to this request, to be put
    /// into this conduit; a queued plugin gives exactly this request with
    /// this conduit, to be enqueued; a plugin that cannot be reached gives
    /// `Disconnected`.
    pub open spec fn sends<'a>(
        self,
        online: bool,
        methode: String,
        args: String,
        callback: oneshot::Sender<Reply>,
        delivery: Delivery<'a>,
    ) -> bool {
        if !online {
            delivery == Delivery::Failed(ManagerError::Offline)
        } else {
            match self.mode {
                Mode::Direct(f) => delivery matches Delivery::Answer(conduit, reply) && conduit
                    == callback && call_ensures(f, (methode, args), reply),
                Mode::Queued => delivery matches Delivery::Enqueue(_, request) && request == (
                    methode,
                    args,
                    callback,
                ),
                Mode::Silent => delivery == Delivery::Failed(ManagerError::Disconnected),
            }
        }
    }

    /// The same capability, issued for the registration `serial`.
    pub open spec fn issued_for(self, serial: nat) -> Capability<F> {
        Capability { registration: Some(serial), ..self }
    }
}

/// How a plugin is reached: chosen once, when the plugin is described, and
/// the same for every capability issued for it.
pub enum Dispatch<F> {
    Direct(F),
    Queued(mpsc::Sender<Request>),
    Silent,
}

/// A plugin's descriptor and, once a registry has issued it, the capability
/// to call the plugin.
///
/// Whether the plugin is alive is not recorded here.  A capability carries
/// the serial of its registration and asks the registry, so that every copy,
/// whenever it was made, sees the plugin go offline at the same moment.
pub struct Plugin<F> {
    pub(crate) registration: Option<u64>,
    pub(crate) dispatch: Dispatch<F>,
    pub version: String,
    pub name: String,
}

/// What `Plugin::interact` has found, or leaves to be done.
pub enum Interaction<'a> {
    /// The call is over, and this is how it went.
    Done(Result<Reply, ManagerError>),
    /// The plugin serves a queue: the request is to be enqueued on this
    /// queue, which is the capability's own, and the reply awaited at this
    /// receiving end.  `queued_outcome` makes the result of how both went.
    Enqueue(&'a mpsc::Sender<Request>, Request, oneshot::Receiver<Reply>),
}

/// What `Plugin::send` has found, or leaves to be done.
pub enum Delivery<'a> {
    /// The request cannot be delivered; the conduit was dropped.
    Failed(ManagerError),
    /// The plugin was called and this is its reply, to be put into this
    /// conduit.  `handover_outcome` makes the result of how that went.
    Answer(oneshot::Sender<Reply>, Reply),
    /// The plugin serves a queue: the request is to be enqueued on this
    /// queue, which is the capability's own.  `handover_outcome` makes the
    /// result of how that went.
    Enqueue(&'a mpsc::Sender<Request>, Request),
}

impl<F> View for Plugin<F> {
    type V = Capability<F>;

    closed spec fn view(&self) -> Capability<F> {
        Capability {
            name: self.name@,
            version: self.version@,
            registration: match self.registration {
                Some(serial) => Some(serial as nat),
                None => None,
            },
            mode: match self.dispatch {
                Dispatch::Direct(f) => Mode::Direct(f),
                Dispatch::Queued(_) => Mode::Queued,
                Dispatch::Silent => Mode::Silent,
            },
        }
    }
}

/// What the caller of a queued plugin gets: the reply, where the queue took
/// the request and a reply came back; `Disconnected` otherwise.
pub open spec fn queued_result(accepted: bool, answer: Option<Reply>) -> Result<
    Reply,
    ManagerError,
> {
    match answer {
        Some(reply) => if accepted {
            Ok(reply)
        } else {
            Err(ManagerError::Disconnected)
        },
        None => Err(ManagerError::Disconnected),
    }
}

/// What the caller of a queued plugin gets, given whether the queue took the
/// request and what came back through the reply conduit.
pub fn queued_outcome(accepted: bool, answer: Option<Reply>) -> (r: Result<Reply, ManagerError>)
    ensures
        r == queued_result(accepted, answer),
{
    match answer {
        Some(reply) => if accepted {
            Ok(reply)
        } else {
            Err(ManagerError::Disconnected)
        },
        None => Err(ManagerError::Disconnected),
    }
}

/// How a hand-over went, given whether the other end took what was handed to
/// it: `Disconnected` where it did not.
pub fn handover_outcome(accepted: bool) -> (r: Result<(), ManagerError>)
    ensures
        r == if accepted {
            Ok::<(), ManagerError>(())
        } else {
            Err::<(), ManagerError>(ManagerError::Disconnected)
        },
{
    if accepted {
        Ok(())
    } else {
        Err(ManagerError::Disconnected)
    }
}

impl<F: Fn(String, String) -> Reply + Copy> Clone for Plugin<F> {
    /// Another capability for the same plugin and the same registration.
    fn clone(&self) -> (other: Self)
        ensures
            other@ == self@,
    {
        let dispatch = match &self.dispatch {
            Dispatch::Direct(f) => Dispatch::Direct(*f),
            Dispatch::Queued(sender) => Dispatch::Queued(sender.clone()),
            Dispatch::Silent => Dispatch::Silent,
        };
        Plugin {
            registration: self.registration,
            dispatch,
            version: self.version.clone(),
            name: self.name.clone(),
        }
    }
}

impl<F: Fn(String, String) -> Reply + Copy> Plugin<F> {
    /// Describes a plugin that is called through `interact_func`, or that
    /// cannot be called at all where there is none.
    pub fn new(name: String, version: String, interact_func: Option<F>) -> (plugin: Self)
        requires
            interact_func matches Some(f) ==> answers_all(f),
        ensures
            plugin@ == (Capability {
                name: name@,
                version: version@,
                registration: None,
                mode: match interact_func {
                    Some(f) => Mode::Direct(f),
                    None => Mode::Silent,
                },
            }),
            plugin@.wf(),
            plugin.queue() is None,
    {
        let dispatch = match interact_func {
            Some(f) => Dispatch::Direct(f),
            None => Dispatch::Silent,
        };
        Plugin { registration: None, dispatch, version, name }
    }

    /// Describes a plugin that serves requests from the queue behind
    /// `sender`.
    pub fn with_queue(name: String, version: String, sender: mpsc::Sender<Request>) -> (plugin: Self)
        ensures
            plugin@ == (Capability {
                name: name@,
                version: version@,
                registration: None,
                mode: Mode::<F>::Queued,
            }),
            plugin@.wf(),
            plugin.queue() == Some(sender),
    {
        Plugin { registration: None, dispatch: Dispatch::Queued(sender), version, name }
    }

    /// The name the plugin goes by.
    pub fn name(&self) -> (name: &String)
        ensures
            name@ == self@.name,
    {
        &self.name
    }

    /// The version the plugin states.
    pub fn version(&self) -> (version: &String)
        ensures
            version@ == self@.version,
    {
        &self.version
    }

    /// A fresh capability for the same plugin, issued for the registration
    /// `registration`.
    pub fn renew(&self, registration: u64) -> (capability: Self)
        ensures
            capability@ == self@.issued_for(registration as nat),
            capability@.wf() == self@.wf(),
    {
        let dispatch = match &self.dispatch {
            Dispatch::Direct(f) => Dispatch::Direct(*f),
            Dispatch::Queued(sender) => Dispatch::Queued(sender.clone()),
            Dispatch::Silent => Dispatch::Silent,
        };
        Plugin {
            registration: Some(registration),
            dispatch,
            version: self.version.clone(),
            name: self.name.clone(),
        }
    }

    /// Whether the plugin is alive in `registry`.
    pub fn is_online(&self, registry: &PluginRegistry<F>) -> (online: bool)
        ensures
            online == registry@.online(self@),
    {
        match self.registration {
            Some(serial) => registry.is_live(serial),
            None => true,
        }
    }

    /// Whether the plugin is alive and served through its queue.
    pub fn coms_are_channel(&self, registry: &PluginRegistry<F>) -> (yes: bool)
        ensures
            yes == (self@.mode is Queued && registry@.online(self@)),
    {
        let queued = match &self.dispatch {
            Dispatch::Queued(_) => true,
            _ => false,
        };
        queued && self.is_online(registry)
    }

    /// Whether the plugin is alive and called directly.
    pub fn coms_are_func(&self, registry: &PluginRegistry<F>) -> (yes: bool)
        ensures
            yes == (self@.mode is Direct && registry@.online(self@)),
    {
        let direct = match &self.dispatch {
            Dispatch::Direct(_) => true,
            _ => false,
        };
        direct && self.is_online(registry)
    }

    /// The sending end of the queue that the plugin serves, where it serves
    /// one.
    pub closed spec fn queue(&self) -> Option<mpsc::Sender<Request>> {
        match self.dispatch {
            Dispatch::Queued(sender) => Some(sender),
            _ => None,
        }
    }

    /// Calls the plugin, as far as that can be done without waiting.
    ///
    /// Fails at once with `Offline` where the plugin is no longer alive in
    /// `registry`.  A plugin that is called directly is called, and its reply
    /// is the result.  A plugin that cannot be reached gives `Disconnected`.
    /// For a queued plugin a reply conduit is made and the answer is
    /// `Enqueue`: the capability's own queue, the request with the sending
    /// end of the conduit, and the receiving end.  The caller enqueues the
    /// request and awaits the reply, both of which may block, and
    /// `queued_outcome` tells what comes of it.
    pub fn interact<'a>(
        &'a self,
        registry: &PluginRegistry<F>,
        methode: String,
        args: String,
    ) -> (interaction: Interaction<'a>)
        requires
            self@.wf(),
        ensures
            self@.interacts(registry@.online(self@), methode, args, interaction),
            interaction matches Interaction::Enqueue(queue, _, _) ==> self.queue() == Some(*queue),
    {
        self.interact_observed(self.is_online(registry), methode, args)
    }

    /// `interact` for a caller that has asked the registry already: `online`
    /// is what `is_online` answered.  A host that guards its registry with a
    /// lock asks under the lock and calls the plugin without it.
    pub fn interact_observed<'a>(&'a self, online: bool, methode: String, args: String) -> (interaction:
        Interaction<'a>)
        requires
            self@.wf(),
        ensures
            self@.interacts(online, methode, args, interaction),
            interaction matches Interaction::Enqueue(queue, _, _) ==> self.queue() == Some(*queue),
    {
        if !online {
            return Interaction::Done(Err(ManagerError::Offline));
        }
        match &self.dispatch {
            Dispatch::Direct(f) => {
                let call: F = *f;
                assert(answers_all(call));
                Interaction::Done(Ok(call(methode, args)))
            },
            Dispatch::Queued(queue) => {
                let (conduit, reply) = oneshot::channel::<Reply>();
                Interaction::Enqueue(queue, (methode, args, conduit), reply)
            },
            Dispatch::Silent => Interaction::Done(Err(ManagerError::Disconnected)),
        }
    }

    /// Hands a request to the plugin, as far as that can be done without
    /// waiting; the reply will come through `callback` if it comes at all.
    ///
    /// Where the plugin is no longer alive in `registry` the answer is
    /// `Failed(Offline)` and the conduit is dropped.  A plugin that is called
    /// directly is called here, and the answer is `Answer` with the conduit
    /// and the reply to put into it.  For a queued plugin the answer is
    /// `Enqueue` with the capability's own queue and the request, conduit
    /// included, for the caller to enqueue.  A plugin that cannot be reached
    /// gives `Failed(Disconnected)`, and the conduit is dropped.
    pub fn send<'a>(
        &'a self,
        registry: &PluginRegistry<F>,
        methode: String,
        args: String,
        callback: oneshot::Sender<Reply>,
    ) -> (delivery: Delivery<'a>)
        requires
            self@.wf(),
        ensures
            self@.sends(registry@.online(self@), methode, args, callback, delivery),
            delivery matches Delivery::Enqueue(queue, _) ==> self.queue() == Some(*queue),
    {
        self.send_observed(self.is_online(registry), methode, args, callback)
    }

    /// `send` for a caller that has asked the registry already: `online` is
    /// what `is_online` answered.
    pub fn send_observed<'a>(
        &'a self,
        online: bool,
        methode: String,
        args: String,
        callback: oneshot::Sender<Reply>,
    ) -> (delivery: Delivery<'a>)
        requires
            self@.wf(),
        ensures
            self@.sends(online, methode, args, callback, delivery),
            delivery matches Delivery::Enqueue(queue, _) ==> self.queue() == Some(*queue),
    {
        if !online {
            return Delivery::Failed(ManagerError::Offline);
        }
        match &self.dispatch {
            Dispatch::Direct(f) => {
                let call: F = *f;
                assert(answers_all(call));
                Delivery::Answer(callback, call(methode, args))
            },
            Dispatch::Queued(queue) => Delivery::Enqueue(queue, (methode, args, callback)),
            Dispatch::Silent => Delivery::Failed(ManagerError::Disconnected),
        }
    }
}

} // verus!
