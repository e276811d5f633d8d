//! References to models, data and peers, and the directions in which they may be used.

use vstd::prelude::*;

use crate::ids::PeerId;
use crate::messages::headers::DataSlice;
use crate::text::{copy_texts, texts};

verus! {

#[derive(Clone, Copy, Debug, PartialEq, Eq, Structural)]
pub enum SelectionStrategy {
    All,
    Random,
    One,
}

/// Reference types for pointing to models, data, or other resources
#[derive(Debug)]
pub enum Reference {
    /// URI reference for fetching static data (models, datasets)
    /// Intent: Pull-based, request/response
    Uri { value: String },
    /// Hugging Face model reference for fetching models
    /// Intent: Pull-based, request/response
    HuggingFace {
        repository: String,
        revision: Option<String>,
        filenames: Vec<String>,
        token: Option<String>,
    },
    Peers { peers: Vec<PeerId>, strategy: SelectionStrategy, resource: Option<DataSlice> },
    Scheduler { peer: PeerId, dataset: String },
}

/// What a [`Reference`] points to.
pub enum ReferenceView {
    Uri(Seq<char>),
    HuggingFace {
        repository: Seq<char>,
        revision: Option<Seq<char>>,
        filenames: Seq<Seq<char>>,
        token: Option<Seq<char>>,
    },
    Peers {
        peers: Seq<PeerId>,
        strategy: SelectionStrategy,
        resource: Option<(Seq<char>, u64)>,
    },
    Scheduler { peer: PeerId, dataset: Seq<char> },
}

/// The characters of an optional text.
pub open spec fn chars_of(text: Option<String>) -> Option<Seq<char>> {
    match text {
        Some(text) => Some(text@),
        None => None,
    }
}

impl View for Reference {
    type V = ReferenceView;

    open spec fn view(&self) -> ReferenceView {
        match *self {
            Reference::Uri { value } => ReferenceView::Uri(value@),
            Reference::HuggingFace {
                repository,
                revision,
                filenames,
                token,
            } => ReferenceView::HuggingFace {
                repository: repository@,
                revision: chars_of(revision),
                filenames: texts(filenames@),
                token: chars_of(token),
            },
            Reference::Peers { peers, strategy, resource } => ReferenceView::Peers {
                peers: peers@,
                strategy,
                resource: match resource {
                    Some(slice) => Some((slice.dataset@, slice.index)),
                    None => None,
                },
            },
            Reference::Scheduler { peer, dataset } => ReferenceView::Scheduler {
                peer,
                dataset: dataset@,
            },
        }
    }
}

impl Clone for Reference {
    fn clone(&self) -> (copy: Reference)
        ensures
            copy@ == self@,
    {
        match self {
            Reference::Uri { value } => Reference::Uri { value: value.clone() },
            Reference::HuggingFace { repository, revision, filenames, token } => {
                Reference::HuggingFace {
                    repository: repository.clone(),
                    revision: revision.clone(),
                    filenames: copy_texts(filenames),
                    token: token.clone(),
                }
            },
            Reference::Peers { peers, strategy, resource } => {
                let copies = peers.clone();
                assert(copies@ =~= peers@);
                Reference::Peers { peers: copies, strategy: *strategy, resource: resource.clone() }
            },
            Reference::Scheduler { peer, dataset } => Reference::Scheduler {
                peer: *peer,
                dataset: dataset.clone(),
            },
        }
    }
}

/// A reference to read from.
#[derive(Debug)]
pub struct Fetch(Reference);

impl Clone for Fetch {
    fn clone(&self) -> (copy: Fetch)
        ensures
            copy.reference()@ == self.reference()@,
    {
        Fetch(self.0.clone())
    }
}

impl Fetch {
    /// The reference that is read from.
    pub closed spec fn reference(self) -> Reference {
        self.0
    }

    pub fn uri(value: String) -> (fetch: Fetch)
        ensures
            fetch.reference() == (Reference::Uri { value }),
    {
        Fetch(Reference::Uri { value })
    }

    pub fn huggingface(
        repository: String,
        revision: Option<String>,
        filenames: Vec<String>,
        token: Option<String>,
    ) -> (fetch: Fetch)
        ensures
            fetch.reference() == (Reference::HuggingFace {
                repository,
                revision,
                filenames,
                token,
            }),
    {
        Fetch(Reference::HuggingFace { repository, revision, filenames, token })
    }

    /// The slice `resource`, read from the one peer that holds it.
    pub fn data_peer(peer_id: PeerId, resource: DataSlice) -> (fetch: Fetch)
        ensures
            fetch.reference()@ == (ReferenceView::Peers {
                peers: seq![peer_id],
                strategy: SelectionStrategy::One,
                resource: Some((resource.dataset@, resource.index)),
            }),
    {
        let mut peers: Vec<PeerId> = Vec::new();
        peers.push(peer_id);
        Fetch(Reference::Peers { peers, strategy: SelectionStrategy::One, resource: Some(resource) })
    }

    pub fn scheduler(peer_id: PeerId, dataset: String) -> (fetch: Fetch)
        ensures
            fetch.reference() == (Reference::Scheduler { peer: peer_id, dataset }),
    {
        Fetch(Reference::Scheduler { peer: peer_id, dataset })
    }

    pub fn as_ref(&self) -> (reference: &Reference)
        ensures
            *reference == self.reference(),
    {
        &self.0
    }
}

/// Anything can be read from.
impl TryFrom<Reference> for Fetch {
    type Error = &'static str;

    fn try_from(r: Reference) -> (fetch: Result<Fetch, &'static str>)
        ensures
            fetch matches Ok(f) && f.reference() == r,
    {
        Ok(Fetch(r))
    }
}

impl vstd::std_specs::convert::TryFromSpecImpl<Reference> for Fetch {
    open spec fn obeys_try_from_spec() -> bool {
        true
    }

    closed spec fn try_from_spec(r: Reference) -> Result<Fetch, &'static str> {
        Ok(Fetch(r))
    }
}

impl From<Fetch> for Reference {
    fn from(fetch: Fetch) -> (reference: Reference) {
        fetch.0
    }
}

impl vstd::std_specs::convert::FromSpecImpl<Fetch> for Reference {
    open spec fn obeys_from_spec() -> bool {
        true
    }

    open spec fn from_spec(fetch: Fetch) -> Reference {
        fetch.reference()
    }
}

/// Peers to send to.
#[derive(Debug)]
pub struct Send(Reference);

impl Clone for Send {
    fn clone(&self) -> (copy: Send)
        ensures
            copy.reference()@ == self.reference()@,
    {
        proof {
            use_type_invariant(self);
        }
        Send(self.0.clone())
    }
}

impl Send {
    /// The reference that is sent to.
    pub closed spec fn reference(self) -> Reference {
        self.0
    }

    #[verifier::type_invariant]
    closed spec fn is_to_peers(self) -> bool {
        self.0 is Peers
    }

    pub fn peers(peers: Vec<PeerId>, strategy: SelectionStrategy) -> (send: Send)
        ensures
            send.reference() == (Reference::Peers { peers, strategy, resource: None }),
    {
        Send(Reference::Peers { peers, strategy, resource: None })
    }

    pub fn as_ref(&self) -> (reference: &Reference)
        ensures
            *reference == self.reference(),
            *reference is Peers,
    {
        proof {
            use_type_invariant(self);
        }
        &self.0
    }
}

/// Only peers can be sent to.
impl TryFrom<Reference> for Send {
    type Error = &'static str;

    fn try_from(r: Reference) -> (send: Result<Send, &'static str>)
        ensures
            r is Peers ==> (send matches Ok(s) && s.reference() == r),
            r !is Peers ==> send == Err::<Send, &'static str>(
                "Send can only be created from Peers",
            ),
    {
        match r {
            Reference::Peers { peers, strategy, resource } => Ok(
                Send(Reference::Peers { peers, strategy, resource }),
            ),
            _ => Err("Send can only be created from Peers"),
        }
    }
}

impl vstd::std_specs::convert::TryFromSpecImpl<Reference> for Send {
    open spec fn obeys_try_from_spec() -> bool {
        true
    }

    closed spec fn try_from_spec(r: Reference) -> Result<Send, &'static str> {
        if r is Peers {
            Ok(Send(r))
        } else {
            Err("Send can only be created from Peers")
        }
    }
}

impl From<Send> for Reference {
    fn from(send: Send) -> (reference: Reference) {
        send.0
    }
}

impl vstd::std_specs::convert::FromSpecImpl<Send> for Reference {
    open spec fn obeys_from_spec() -> bool {
        true
    }

    open spec fn from_spec(send: Send) -> Reference {
        send.reference()
    }
}

/// Peers to receive from, all of them.
#[derive(Debug)]
pub struct Receive(Reference);

impl Clone for Receive {
    fn clone(&self) -> (copy: Receive)
        ensures
            copy.reference()@ == self.reference()@,
    {
        proof {
            use_type_invariant(self);
        }
        Receive(self.0.clone())
    }
}

impl Receive {
    /// The reference that is received from.
    pub closed spec fn reference(self) -> Reference {
        self.0
    }

    #[verifier::type_invariant]
    closed spec fn is_from_all_peers(self) -> bool {
        self.0 is Peers && self.0->strategy == SelectionStrategy::All
    }

    pub fn peers(peers: Vec<PeerId>) -> (receive: Receive)
        ensures
            receive.reference() == (Reference::Peers {
                peers,
                strategy: SelectionStrategy::All,
                resource: None,
            }),
    {
        Receive(Reference::Peers { peers, strategy: SelectionStrategy::All, resource: None })
    }

    /// The peers that are received from.
    pub fn get_peers(&self) -> (peers: &Vec<PeerId>)
        ensures
            self.reference() is Peers,
            *peers == self.reference()->peers,
    {
        proof {
            use_type_invariant(self);
        }
        match &self.0 {
            Reference::Peers { peers, .. } => peers,
            _ => vstd::pervasive::unreached(),
        }
    }

    pub fn as_ref(&self) -> (reference: &Reference)
        ensures
            *reference == self.reference(),
            *reference is Peers,
            reference->strategy == SelectionStrategy::All,
    {
        proof {
            use_type_invariant(self);
        }
        &self.0
    }
}

/// Only peers can be received from, and only from all of them.
impl TryFrom<Reference> for Receive {
    type Error = &'static str;

    fn try_from(r: Reference) -> (receive: Result<Receive, &'static str>)
        ensures
            r is Peers && r->strategy == SelectionStrategy::All ==> (receive matches Ok(s)
                && s.reference() == r),
            r is Peers && r->strategy != SelectionStrategy::All ==> receive == Err::<
                Receive,
                &'static str,
            >("Receive requires SelectionStrategy::All"),
            r !is Peers ==> receive == Err::<Receive, &'static str>(
                "Receive can only be created from Peers",
            ),
    {
        match r {
            Reference::Peers { peers, strategy, resource } => {
                if strategy == SelectionStrategy::All {
                    Ok(Receive(Reference::Peers { peers, strategy, resource }))
                } else {
                    Err("Receive requires SelectionStrategy::All")
                }
            },
            _ => Err("Receive can only be created from Peers"),
        }
    }
}

impl vstd::std_specs::convert::TryFromSpecImpl<Reference> for Receive {
    open spec fn obeys_try_from_spec() -> bool {
        true
    }

    closed spec fn try_from_spec(r: Reference) -> Result<Receive, &'static str> {
        if r is Peers && r->strategy == SelectionStrategy::All {
            Ok(Receive(r))
        } else if r is Peers {
            Err("Receive requires SelectionStrategy::All")
        } else {
            Err("Receive can only be created from Peers")
        }
    }
}

impl From<Receive> for Reference {
    fn from(receive: Receive) -> (reference: Reference) {
        receive.0
    }
}

impl vstd::std_specs::convert::FromSpecImpl<Receive> for Reference {
    open spec fn obeys_from_spec() -> bool {
        true
    }

    open spec fn from_spec(receive: Receive) -> Reference {
        receive.reference()
    }
}

/// What is read from survives as a bare reference: turned into one and back, it is the same.
pub proof fn law_fetch_round_trip(fetch: Fetch, back: Fetch)
    requires
        back.reference() == fetch.reference(),
    ensures
        back == fetch,
{
}

/// What is sent to survives as a bare reference: turned into one and back, it is the same.
pub proof fn law_send_round_trip(send: Send, back: Send)
    requires
        back.reference() == send.reference(),
    ensures
        back == send,
{
}

/// What is received from survives as a bare reference: turned into one and back, it is the same.
pub proof fn law_receive_round_trip(receive: Receive, back: Receive)
    requires
        back.reference() == receive.reference(),
    ensures
        back == receive,
{
}

/// Whether two references name the same peers, in the same order, to be used in the same way.
pub open spec fn same_peers(first: Reference, second: Reference) -> bool {
    &&& first matches Reference::Peers { peers, strategy, resource }
    &&& second matches Reference::Peers { peers: others, strategy: another, resource: data }
    &&& peers@ == others@
    &&& strategy == another
    &&& resource is None <==> data is None
}

/// What is made to send to peers, or to receive from them, names exactly these peers and no data,
/// to be used as asked for: whoever receives does so from all of them.
pub proof fn law_peers_are_sent_to_and_received_from(
    peers: Vec<PeerId>,
    strategy: SelectionStrategy,
    send: Send,
    receive: Receive,
    sent_to: &Reference,
    received_from: &Reference,
    listed: &Vec<PeerId>,
    i: int,
)
    requires
        call_ensures(Send::peers, (peers, strategy), send),
        call_ensures(Send::as_ref, (&send,), sent_to),
        call_ensures(Receive::peers, (peers,), receive),
        call_ensures(Receive::as_ref, (&receive,), received_from),
        call_ensures(Receive::get_peers, (&receive,), listed),
    ensures
        *sent_to == (Reference::Peers { peers, strategy, resource: None }),
        *received_from == (Reference::Peers {
            peers,
            strategy: SelectionStrategy::All,
            resource: None,
        }),
        listed@.len() == peers@.len(),
        0 <= i < peers@.len() ==> listed@[i] == peers@[i],
{
}

/// What is made to read names what it was made from.
pub proof fn law_what_is_read_is_named(
    value: String,
    repository: String,
    revision: Option<String>,
    filenames: Vec<String>,
    token: Option<String>,
    peer: PeerId,
    slice: DataSlice,
    dataset: String,
    made: (Fetch, Fetch, Fetch, Fetch),
)
    requires
        call_ensures(Fetch::uri, (value,), made.0),
        call_ensures(Fetch::huggingface, (repository, revision, filenames, token), made.1),
        call_ensures(Fetch::data_peer, (peer, slice), made.2),
        call_ensures(Fetch::scheduler, (peer, dataset), made.3),
    ensures
        made.0.reference() == (Reference::Uri { value }),
        made.1.reference() == (Reference::HuggingFace { repository, revision, filenames, token }),
        made.2.reference() matches Reference::Peers { peers, strategy, resource } && peers@.len()
            == 1 && peers@[0] == peer && strategy == SelectionStrategy::One && resource is Some
            && resource->0.dataset@ == slice.dataset@ && resource->0.index == slice.index,
        made.3.reference() == (Reference::Scheduler { peer, dataset }),
{
}

/// Anything can be read from, peers can be sent to, and peers can be received from if it is from
/// all of them; nothing else is possible. What is possible is taken as it is, and given back so.
pub proof fn law_directions_of_references(
    reference: Reference,
    fetch: Result<Fetch, &'static str>,
    send: Result<Send, &'static str>,
    receive: Result<Receive, &'static str>,
)
    requires
        call_ensures(<Fetch as TryFrom<Reference>>::try_from, (reference,), fetch),
        call_ensures(<Send as TryFrom<Reference>>::try_from, (reference,), send),
        call_ensures(<Receive as TryFrom<Reference>>::try_from, (reference,), receive),
    ensures
        fetch is Ok && fetch->Ok_0.reference() == reference,
        send is Ok <==> reference is Peers,
        send is Ok ==> send->Ok_0.reference() == reference,
        receive is Ok <==> reference is Peers && reference->strategy == SelectionStrategy::All,
        receive is Ok ==> receive->Ok_0.reference() == reference,
{
}

/// A copy of a reference names the same.
pub proof fn law_copies_name_the_same(reference: &Reference, copy: Reference)
    requires
        call_ensures(<Reference as Clone>::clone, (reference,), copy),
    ensures
        copy@ == reference@,
        *reference is Peers ==> same_peers(copy, *reference),
        *reference is Uri ==> copy is Uri && copy->value@ == reference->value@,
        *reference is HuggingFace ==> copy is HuggingFace && copy->repository@
            == reference->repository@ && copy->filenames@.len() == reference->filenames@.len(),
        *reference is Scheduler ==> copy is Scheduler && copy->peer == reference->peer
            && copy->dataset@ == reference->dataset@,
{
    if *reference is HuggingFace {
        assert(texts(copy->filenames@).len() == copy->filenames@.len());
        assert(texts(reference->filenames@).len() == reference->filenames@.len());
    }
}

/// A reference that was made to be read, sent to or received from is given back as it is.
pub proof fn law_references_are_given_back(
    fetch: Fetch,
    send: Send,
    receive: Receive,
    read: &Reference,
    given: (Reference, Reference, Reference),
)
    requires
        call_ensures(Fetch::as_ref, (&fetch,), read),
        call_ensures(<Reference as From<Fetch>>::from, (fetch,), given.0),
        call_ensures(<Reference as From<Send>>::from, (send,), given.1),
        call_ensures(<Reference as From<Receive>>::from, (receive,), given.2),
    ensures
        *read == fetch.reference(),
        given.0 == fetch.reference(),
        given.1 == send.reference(),
        given.2 == receive.reference(),
{
}

} // verus!
