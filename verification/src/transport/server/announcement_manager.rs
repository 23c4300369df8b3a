//! What a server announces of itself, and the tags that it sends to peers.
//!
//! To announce what it offers, a server puts requests to itself, first `initialize` and then one
//! for each list, and publishes what comes back. [`AnnouncementManager`] decides what is
//! published with which tags; the caller publishes and dispatches.

use vstd::prelude::*;

use crate::constants::{
    ABOUT_TAG, ANNOUNCEMENT_REQUEST_ID, INITIALIZE_METHOD, NAME_TAG,
    NOTIFICATIONS_INITIALIZED_METHOD, PICTURE_TAG, PROMPTS_LIST_KIND, RESOURCES_LIST_KIND,
    RESOURCETEMPLATES_LIST_KIND, SERVER_ANNOUNCEMENT_KIND, SUPPORT_ENCRYPTION,
    SUPPORT_ENCRYPTION_EPHEMERAL, TOOLS_LIST_KIND, WEBSITE_TAG,
};
use crate::json::{members_view, object, push_member, text_value, Json, JsonV};
use crate::message::{
    JsonRpcMessage, JsonRpcNotification, JsonRpcRequest, MessageV, NotificationV,
};
use crate::tag::{
    append_tags, clone_tags, flag_tag, push_tag, tag_views, value_tag, Tag,
};
use crate::text::{decimal, decimal_text, opt_text};
use crate::types::{opt_info, EncryptionMode, GiftWrapMode, InfoV, ServerInfo};

verus! {

/// A message for the server's handler, and where it came from.
#[derive(Debug, PartialEq, Eq)]
pub struct IncomingRequest {
    /// The message.
    pub message: JsonRpcMessage,
    /// The client's public key.
    pub client_pubkey: String,
    /// Id of the event that carried the message.
    pub event_id: String,
    /// Whether the message was encrypted.
    pub is_encrypted: bool,
}

/// Model of [`IncomingRequest`].
pub struct IncomingV {
    pub message: MessageV,
    pub client_pubkey: Seq<char>,
    pub event_id: Seq<char>,
    pub is_encrypted: bool,
}

impl View for IncomingRequest {
    type V = IncomingV;

    open spec fn view(&self) -> IncomingV {
        IncomingV {
            message: self.message@,
            client_pubkey: self.client_pubkey@,
            event_id: self.event_id@,
            is_encrypted: self.is_encrypted,
        }
    }
}

/// The models of some requests.
pub open spec fn incoming_views(list: Seq<IncomingRequest>) -> Seq<IncomingV> {
    Seq::new(list.len(), |i: int| list[i]@)
}

/// An event to be published.
#[derive(Debug, PartialEq, Eq)]
pub struct Announcement {
    /// Its kind.
    pub kind: u16,
    /// Its content.
    pub content: Json,
    /// Its tags.
    pub tags: Vec<Tag>,
}

/// Model of [`Announcement`].
pub struct AnnouncementV {
    pub kind: u16,
    pub content: JsonV,
    pub tags: Seq<Seq<Seq<char>>>,
}

impl View for Announcement {
    type V = AnnouncementV;

    open spec fn view(&self) -> AnnouncementV {
        AnnouncementV { kind: self.kind, content: self.content@, tags: tag_views(self.tags@) }
    }
}

/// What a response to one of the server's own requests calls for, in this order: publish,
/// dispatch, signal that the server is initialized.
#[derive(Debug, PartialEq, Eq)]
pub struct Reaction {
    /// What to publish.
    pub publish: Option<Announcement>,
    /// What to hand to the server's handler.
    pub dispatch: Option<IncomingRequest>,
    /// Whether to signal that the server is initialized.
    pub signal: bool,
}

/// Model of [`Reaction`].
pub struct ReactionV {
    pub publish: Option<AnnouncementV>,
    pub dispatch: Option<IncomingV>,
    pub signal: bool,
}

impl View for Reaction {
    type V = ReactionV;

    open spec fn view(&self) -> ReactionV {
        ReactionV {
            publish: match self.publish {
                Some(a) => Some(a@),
                None => None,
            },
            dispatch: match self.dispatch {
                Some(d) => Some(d@),
                None => None,
            },
            signal: self.signal,
        }
    }
}

/// One tag for a value that is there.
pub open spec fn tag_for(name: Seq<char>, value: Option<Seq<char>>) -> Seq<Seq<Seq<char>>> {
    match value {
        Some(v) => seq![value_tag(name, v)],
        None => Seq::empty(),
    }
}

/// The tags that say who a server is.
pub open spec fn info_tags(info: Option<InfoV>) -> Seq<Seq<Seq<char>>> {
    match info {
        Some(i) => tag_for(NAME_TAG@, i.name) + tag_for(ABOUT_TAG@, i.about) + tag_for(
            WEBSITE_TAG@,
            i.website,
        ) + tag_for(PICTURE_TAG@, i.picture),
        None => Seq::empty(),
    }
}

/// The tags that say how a peer encrypts.
pub open spec fn encryption_tags(encryption: EncryptionMode, gift_wrap: GiftWrapMode) -> Seq<
    Seq<Seq<char>>,
> {
    if encryption == EncryptionMode::Disabled {
        Seq::empty()
    } else if gift_wrap.ephemeral_allowed() {
        seq![flag_tag(SUPPORT_ENCRYPTION@), flag_tag(SUPPORT_ENCRYPTION_EPHEMERAL@)]
    } else {
        seq![flag_tag(SUPPORT_ENCRYPTION@)]
    }
}

/// The tags that say how a peer encrypts.
pub fn encryption_tag_list(encryption: EncryptionMode, gift_wrap: GiftWrapMode) -> (r: Vec<Tag>)
    ensures
        tag_views(r@) == encryption_tags(encryption, gift_wrap),
{
    let mut tags: Vec<Tag> = Vec::new();
    assert(tag_views(tags@) =~= Seq::<Seq<Seq<char>>>::empty());
    match encryption {
        EncryptionMode::Disabled => {},
        _ => {
            push_tag(&mut tags, Tag::flag(SUPPORT_ENCRYPTION));
            if gift_wrap.supports_ephemeral() {
                push_tag(&mut tags, Tag::flag(SUPPORT_ENCRYPTION_EPHEMERAL));
            }
        },
    }
    assert(tag_views(tags@) =~= encryption_tags(encryption, gift_wrap));
    tags
}

fn push_value_tag(tags: &mut Vec<Tag>, name: &str, value: &Option<String>)
    ensures
        tag_views(final(tags)@) == tag_views(old(tags)@) + tag_for(name@, opt_text(*value)),
{
    let ghost before = tag_views(tags@);
    if let Some(v) = value {
        push_tag(tags, Tag::with_value(name, v.as_str()));
    }
    assert(tag_views(tags@) =~= before + tag_for(name@, opt_text(*value)));
}

/// Model of [`AnnouncementManager`].
pub struct ManagerV {
    /// Who the server is.
    pub info: Option<InfoV>,
    /// Whether the server encrypts.
    pub encryption: EncryptionMode,
    /// Which gift wraps the server uses.
    pub gift_wrap: GiftWrapMode,
    /// Tags that were added to the common ones.
    pub extra: Seq<Seq<Seq<char>>>,
    /// Tags of the features that the server supports.
    pub internal: Seq<Seq<Seq<char>>>,
    /// Tags about pricing.
    pub pricing: Seq<Seq<Seq<char>>>,
    /// Whether requests can be dispatched to the handler.
    pub dispatching: bool,
    /// Whether the server's own `initialize` request has been answered.
    pub initialized: bool,
}

impl ManagerV {
    /// The common tags: who the server is, how it encrypts, what was added, and its features.
    pub open spec fn common_tags(self) -> Seq<Seq<Seq<char>>> {
        info_tags(self.info) + encryption_tags(self.encryption, self.gift_wrap) + self.extra
            + self.internal
    }

    /// The tags of an announcement: those about pricing, for the announcement of the server
    /// itself behind the common ones.
    pub open spec fn announcement_tags(self, kind: u16) -> Seq<Seq<Seq<char>>> {
        if kind == SERVER_ANNOUNCEMENT_KIND {
            self.common_tags() + self.pricing
        } else {
            self.pricing
        }
    }

    /// What is needed for the tags of the first response to a client.
    pub open spec fn snapshot(self) -> SnapshotV {
        SnapshotV {
            info: self.info,
            encryption: self.encryption,
            gift_wrap: self.gift_wrap,
            extra: self.extra,
            internal: self.internal,
        }
    }

    /// What a response calls for, and the manager afterwards.
    pub open spec fn reaction(self, response: MessageV) -> (ManagerV, ReactionV) {
        let quiet = ReactionV { publish: None, dispatch: None, signal: false };
        match response {
            MessageV::Response { result, .. } => match announced_kind(result) {
                Some(kind) => {
                    let publish = Some(
                        AnnouncementV { kind, content: result, tags: self.announcement_tags(kind) },
                    );
                    if kind == SERVER_ANNOUNCEMENT_KIND {
                        (
                            ManagerV { initialized: true, ..self },
                            ReactionV {
                                publish,
                                dispatch: if self.dispatching {
                                    Some(own_message(initialized_notification()))
                                } else {
                                    None
                                },
                                signal: true,
                            },
                        )
                    } else {
                        (self, ReactionV { publish, ..quiet })
                    }
                },
                None => (self, quiet),
            },
            MessageV::ErrorResponse { .. } => (
                ManagerV { initialized: true, ..self },
                ReactionV { signal: !self.initialized, ..quiet },
            ),
            _ => (self, quiet),
        }
    }
}

/// The kind of event that a result is published as, by the members that it has.
pub open spec fn announced_kind(result: JsonV) -> Option<u16> {
    if result.field("protocolVersion"@) is Some || result.field("capabilities"@) is Some {
        Some(SERVER_ANNOUNCEMENT_KIND)
    } else if result.field("tools"@) is Some {
        Some(TOOLS_LIST_KIND)
    } else if result.field("resources"@) is Some {
        Some(RESOURCES_LIST_KIND)
    } else if result.field("resourceTemplates"@) is Some {
        Some(RESOURCETEMPLATES_LIST_KIND)
    } else if result.field("prompts"@) is Some {
        Some(PROMPTS_LIST_KIND)
    } else {
        None
    }
}

/// A message that the server puts to itself.
pub open spec fn own_message(message: MessageV) -> IncomingV {
    IncomingV {
        message,
        client_pubkey: ANNOUNCEMENT_REQUEST_ID@,
        event_id: ANNOUNCEMENT_REQUEST_ID@,
        is_encrypted: false,
    }
}

/// The notification that the session is open.
pub open spec fn initialized_notification() -> MessageV {
    MessageV::Notification(
        NotificationV {
            jsonrpc: "2.0"@,
            method: NOTIFICATIONS_INITIALIZED_METHOD@,
            params: None,
        },
    )
}

/// A request that the server puts to itself.
pub open spec fn own_request(method: Seq<char>, params: Option<JsonV>) -> IncomingV {
    own_message(
        MessageV::Request {
            jsonrpc: "2.0"@,
            id: JsonV::Text(ANNOUNCEMENT_REQUEST_ID@),
            method,
            params,
        },
    )
}

fn own_message_of(message: JsonRpcMessage) -> (r: IncomingRequest)
    ensures
        r@ == own_message(message@),
{
    IncomingRequest {
        message,
        client_pubkey: ANNOUNCEMENT_REQUEST_ID.to_owned(),
        event_id: ANNOUNCEMENT_REQUEST_ID.to_owned(),
        is_encrypted: false,
    }
}

fn own_request_of(method: &str, params: Option<Json>) -> (r: IncomingRequest)
    ensures
        r@ == own_request(method@, crate::json::opt_json(params)),
{
    own_message_of(
        JsonRpcMessage::Request(
            JsonRpcRequest {
                jsonrpc: "2.0".to_owned(),
                id: text_value(ANNOUNCEMENT_REQUEST_ID),
                method: method.to_owned(),
                params,
            },
        ),
    )
}

/// The parameters of the server's own `initialize` request.
pub open spec fn initialize_params(protocol_version: Seq<char>) -> JsonV {
    JsonV::Object(
        seq![
            ("protocolVersion"@, JsonV::Text(protocol_version)),
            ("capabilities"@, JsonV::Object(Seq::empty())),
            (
                "clientInfo"@,
                JsonV::Object(
                    seq![
                        ("name"@, JsonV::Text("contextvm-announcement-client"@)),
                        ("version"@, JsonV::Text("0.1.0"@)),
                    ],
                ),
            ),
        ],
    )
}

/// The server's own `initialize` request, which comes before all others.
pub fn announcement_initialize(protocol_version: &str) -> (r: IncomingRequest)
    ensures
        r@ == own_request(INITIALIZE_METHOD@, Some(initialize_params(protocol_version@))),
{
    let mut client: Vec<(String, Json)> = Vec::new();
    push_member(&mut client, "name", text_value("contextvm-announcement-client"));
    push_member(&mut client, "version", text_value("0.1.0"));
    let none: Vec<(String, Json)> = Vec::new();
    let mut members: Vec<(String, Json)> = Vec::new();
    push_member(&mut members, "protocolVersion", text_value(protocol_version));
    push_member(&mut members, "capabilities", object(none));
    assert(members_view(client@) =~= seq![
        ("name"@, JsonV::Text("contextvm-announcement-client"@)),
        ("version"@, JsonV::Text("0.1.0"@)),
    ]);
    assert(members_view(none@) =~= Seq::<(Seq<char>, JsonV)>::empty());
    push_member(&mut members, "clientInfo", object(client));
    assert(members_view(members@) =~= initialize_params(protocol_version@)->Object_0);
    own_request_of(INITIALIZE_METHOD, Some(object(members)))
}

/// How the wait for the answer to `initialize` ended.
#[derive(Clone, Copy, PartialEq, Eq, Structural, Debug)]
pub enum InitWait {
    /// The request could not be dispatched.
    NotDispatched,
    /// The wait was cancelled.
    Cancelled,
    /// The answer came.
    Answered,
    /// No answer came in time.
    TimedOut,
}

/// The requests for the lists.
pub open spec fn list_requests() -> Seq<IncomingV> {
    seq![
        own_request("tools/list"@, None),
        own_request("resources/list"@, None),
        own_request("resources/templates/list"@, None),
        own_request("prompts/list"@, None),
    ]
}

/// The requests that follow `initialize`: those for the lists, whether or not the answer came in
/// time, and none when the request could not be dispatched or the wait was cancelled.
pub fn announcement_lists(wait: InitWait) -> (r: Vec<IncomingRequest>)
    ensures
        incoming_views(r@) == (match wait {
            InitWait::NotDispatched => Seq::empty(),
            InitWait::Cancelled => Seq::empty(),
            InitWait::Answered => list_requests(),
            InitWait::TimedOut => list_requests(),
        }),
{
    let mut out: Vec<IncomingRequest> = Vec::new();
    match wait {
        InitWait::NotDispatched | InitWait::Cancelled => {
            assert(incoming_views(out@) =~= Seq::<IncomingV>::empty());
        },
        InitWait::Answered | InitWait::TimedOut => {
            out.push(own_request_of("tools/list", None));
            out.push(own_request_of("resources/list", None));
            out.push(own_request_of("resources/templates/list", None));
            out.push(own_request_of("prompts/list", None));
            assert(incoming_views(out@) =~= list_requests());
        },
    }
    out
}

/// Decides what a server announces.
pub struct AnnouncementManager {
    server_info: Option<ServerInfo>,
    encryption_mode: EncryptionMode,
    gift_wrap_mode: GiftWrapMode,
    extra_common_tags: Vec<Tag>,
    internal_common_tags: Vec<Tag>,
    pricing_tags: Vec<Tag>,
    cached_common_tags: Option<Vec<Tag>>,
    dispatching: bool,
    initialized: bool,
}

impl View for AnnouncementManager {
    type V = ManagerV;

    closed spec fn view(&self) -> ManagerV {
        ManagerV {
            info: opt_info(self.server_info),
            encryption: self.encryption_mode,
            gift_wrap: self.gift_wrap_mode,
            extra: tag_views(self.extra_common_tags@),
            internal: tag_views(self.internal_common_tags@),
            pricing: tag_views(self.pricing_tags@),
            dispatching: self.dispatching,
            initialized: self.initialized,
        }
    }
}

impl AnnouncementManager {
    /// What is remembered of the common tags is what they are.
    #[verifier::type_invariant]
    spec fn cache_is_coherent(&self) -> bool {
        self.cached_common_tags matches Some(cached) ==> tag_views(cached@) == self@.common_tags()
    }

    /// Whether the common tags are remembered.
    pub closed spec fn remembers_common_tags(&self) -> bool {
        self.cached_common_tags is Some
    }

    /// A manager without added tags.
    pub fn new(
        server_info: Option<ServerInfo>,
        encryption_mode: EncryptionMode,
        gift_wrap_mode: GiftWrapMode,
    ) -> (r: Self)
        ensures
            r@ == (ManagerV {
                info: opt_info(server_info),
                encryption: encryption_mode,
                gift_wrap: gift_wrap_mode,
                extra: Seq::empty(),
                internal: Seq::empty(),
                pricing: Seq::empty(),
                dispatching: true,
                initialized: false,
            }),
    {
        let r = AnnouncementManager {
            server_info,
            encryption_mode,
            gift_wrap_mode,
            extra_common_tags: Vec::new(),
            internal_common_tags: Vec::new(),
            pricing_tags: Vec::new(),
            cached_common_tags: None,
            dispatching: true,
            initialized: false,
        };
        assert(r@.extra =~= Seq::<Seq<Seq<char>>>::empty());
        assert(r@.internal =~= Seq::<Seq<Seq<char>>>::empty());
        assert(r@.pricing =~= Seq::<Seq<Seq<char>>>::empty());
        r
    }

    /// The tags that say who the server is.
    pub fn get_server_info_tags(&self) -> (r: Vec<Tag>)
        ensures
            tag_views(r@) == info_tags(self@.info),
    {
        let mut tags: Vec<Tag> = Vec::new();
        assert(tag_views(tags@) =~= Seq::<Seq<Seq<char>>>::empty());
        if let Some(info) = &self.server_info {
            push_value_tag(&mut tags, NAME_TAG, &info.name);
            push_value_tag(&mut tags, ABOUT_TAG, &info.about);
            push_value_tag(&mut tags, WEBSITE_TAG, &info.website);
            push_value_tag(&mut tags, PICTURE_TAG, &info.picture);
            assert(tag_views(tags@) =~= info_tags(self@.info));
        }
        tags
    }

    /// The tags that say how the server encrypts.
    pub fn get_capability_tags(&self) -> (r: Vec<Tag>)
        ensures
            tag_views(r@) == encryption_tags(self@.encryption, self@.gift_wrap),
    {
        encryption_tag_list(self.encryption_mode, self.gift_wrap_mode)
    }

    /// The common tags. They are put together once and then remembered.
    pub fn get_common_tags(&mut self) -> (r: Vec<Tag>)
        ensures
            tag_views(r@) == old(self)@.common_tags(),
            final(self)@ == old(self)@,
            final(self).remembers_common_tags(),
    {
        proof {
            use_type_invariant(&*self);
        }
        if let Some(cached) = &self.cached_common_tags {
            return clone_tags(cached);
        }
        let mut tags = self.get_server_info_tags();
        append_tags(&mut tags, &self.get_capability_tags());
        append_tags(&mut tags, &self.extra_common_tags);
        append_tags(&mut tags, &self.internal_common_tags);
        let copy = clone_tags(&tags);
        self.cached_common_tags = Some(copy);
        tags
    }

    /// Whether the common tags are remembered.
    pub fn has_cached_common_tags(&self) -> (r: bool)
        ensures
            r == self.remembers_common_tags(),
    {
        self.cached_common_tags.is_some()
    }

    /// Whether the server's own `initialize` request has been answered.
    pub fn is_initialized(&self) -> (r: bool)
        ensures
            r == self@.initialized,
    {
        self.initialized
    }

    /// The tags about pricing.
    pub fn get_pricing_tags(&self) -> (r: &Vec<Tag>)
        ensures
            tag_views(r@) == self@.pricing,
    {
        &self.pricing_tags
    }

    /// The tags of an announcement.
    pub fn get_announcement_tags(&mut self, kind: u16) -> (r: Vec<Tag>)
        ensures
            tag_views(r@) == old(self)@.announcement_tags(kind),
            final(self)@ == old(self)@,
    {
        if kind == SERVER_ANNOUNCEMENT_KIND {
            let mut tags = self.get_common_tags();
            append_tags(&mut tags, &self.pricing_tags);
            tags
        } else {
            clone_tags(&self.pricing_tags)
        }
    }

    /// Sets the tags that are added to the common ones.
    pub fn set_extra_common_tags(&mut self, tags: Vec<Tag>)
        ensures
            final(self)@ == (ManagerV { extra: tag_views(tags@), ..old(self)@ }),
            !final(self).remembers_common_tags(),
    {
        self.cached_common_tags = None;
        self.extra_common_tags = tags;
    }

    /// Sets the tags of the features that the server supports.
    pub fn set_internal_common_tags(&mut self, tags: Vec<Tag>)
        ensures
            final(self)@ == (ManagerV { internal: tag_views(tags@), ..old(self)@ }),
            !final(self).remembers_common_tags(),
    {
        self.cached_common_tags = None;
        self.internal_common_tags = tags;
    }

    /// Sets the tags about pricing.
    pub fn set_pricing_tags(&mut self, tags: Vec<Tag>)
        ensures
            final(self)@ == (ManagerV { pricing: tag_views(tags@), ..old(self)@ }),
            final(self).remembers_common_tags() == old(self).remembers_common_tags(),
    {
        proof {
            use_type_invariant(&*self);
        }
        self.pricing_tags = tags;
    }

    /// The tags of the announcement of the server itself, for which it has to say who it is.
    pub fn announce(&mut self) -> (r: Option<Vec<Tag>>)
        ensures
            final(self)@ == old(self)@,
            match r {
                Some(tags) => old(self)@.info is Some && tag_views(tags@)
                    == old(self)@.announcement_tags(SERVER_ANNOUNCEMENT_KIND),
                None => old(self)@.info is None,
            },
    {
        if self.server_info.is_none() {
            return None;
        }
        Some(self.get_announcement_tags(SERVER_ANNOUNCEMENT_KIND))
    }

    fn list(&self, kind: u16, name: &str, items: Vec<Json>) -> (r: Announcement)
        ensures
            r@ == list_announcement(self@, kind, name@, items@),
    {
        let mut members: Vec<(String, Json)> = Vec::new();
        let list = Json::Array(items);
        push_member(&mut members, name, list);
        assert(members_view(members@) =~= seq![(name@, list@)]);
        assert(list@->Array_0 =~= item_views(items@));
        Announcement { kind, content: object(members), tags: clone_tags(&self.pricing_tags) }
    }

    /// The announcement of the tools.
    pub fn publish_tools(&self, tools: Vec<Json>) -> (r: Announcement)
        ensures
            r@ == list_announcement(self@, TOOLS_LIST_KIND, "tools"@, tools@),
    {
        self.list(TOOLS_LIST_KIND, "tools", tools)
    }

    /// The announcement of the resources.
    pub fn publish_resources(&self, resources: Vec<Json>) -> (r: Announcement)
        ensures
            r@ == list_announcement(self@, RESOURCES_LIST_KIND, "resources"@, resources@),
    {
        self.list(RESOURCES_LIST_KIND, "resources", resources)
    }

    /// The announcement of the prompts.
    pub fn publish_prompts(&self, prompts: Vec<Json>) -> (r: Announcement)
        ensures
            r@ == list_announcement(self@, PROMPTS_LIST_KIND, "prompts"@, prompts@),
    {
        self.list(PROMPTS_LIST_KIND, "prompts", prompts)
    }

    /// The announcement of the resource templates.
    pub fn publish_resource_templates(&self, templates: Vec<Json>) -> (r: Announcement)
        ensures
            r@ == list_announcement(
                self@,
                RESOURCETEMPLATES_LIST_KIND,
                "resourceTemplates"@,
                templates@,
            ),
    {
        self.list(RESOURCETEMPLATES_LIST_KIND, "resourceTemplates", templates)
    }

    /// What the event loop needs for the first response to a client.
    pub fn common_tags_snapshot(&self) -> (r: CommonTagsSnapshot)
        ensures
            r@ == self@.snapshot(),
    {
        CommonTagsSnapshot {
            server_info: match &self.server_info {
                Some(info) => Some(info.duplicate()),
                None => None,
            },
            extra_common_tags: clone_tags(&self.extra_common_tags),
            internal_common_tags: clone_tags(&self.internal_common_tags),
            encryption_mode: self.encryption_mode,
            gift_wrap_mode: self.gift_wrap_mode,
        }
    }

    /// From now on nothing is dispatched any more.
    pub fn shutdown(&mut self)
        ensures
            final(self)@ == (ManagerV { dispatching: false, ..old(self)@ }),
    {
        proof {
            use_type_invariant(&*self);
        }
        self.dispatching = false;
    }

    /// What a response to one of the server's own requests calls for.
    pub fn handle_announcement_response(&mut self, response: &JsonRpcMessage) -> (r: Reaction)
        ensures
            (final(self)@, r@) == old(self)@.reaction(response@),
    {
        proof {
            use_type_invariant(&*self);
        }
        let result = match response {
            JsonRpcMessage::Response(resp) => &resp.result,
            JsonRpcMessage::ErrorResponse(_) => {
                let signal = !self.initialized;
                self.initialized = true;
                return Reaction { publish: None, dispatch: None, signal };
            },
            _ => {
                return Reaction { publish: None, dispatch: None, signal: false };
            },
        };
        let kind: u16 = match kind_of_result(result) {
            Some(kind) => kind,
            None => {
                return Reaction { publish: None, dispatch: None, signal: false };
            },
        };
        let tags = self.get_announcement_tags(kind);
        let publish = Some(Announcement { kind, content: result.duplicate(), tags });
        if kind != SERVER_ANNOUNCEMENT_KIND {
            return Reaction { publish, dispatch: None, signal: false };
        }
        let dispatch = if self.dispatching {
            Some(
                own_message_of(
                    JsonRpcMessage::Notification(
                        JsonRpcNotification {
                            jsonrpc: "2.0".to_owned(),
                            method: NOTIFICATIONS_INITIALIZED_METHOD.to_owned(),
                            params: None,
                        },
                    ),
                ),
            )
        } else {
            None
        };
        proof {
            use_type_invariant(&*self);
        }
        self.initialized = true;
        Reaction { publish, dispatch, signal: true }
    }
}

/// The models of some values.
pub open spec fn item_views(items: Seq<Json>) -> Seq<JsonV> {
    Seq::new(items.len(), |i: int| items[i]@)
}

/// The announcement of a list, with the tags about pricing.
pub open spec fn list_announcement(m: ManagerV, kind: u16, name: Seq<char>, items: Seq<Json>) -> AnnouncementV {
    AnnouncementV {
        kind,
        content: JsonV::Object(seq![(name, JsonV::Array(item_views(items)))]),
        tags: m.pricing,
    }
}

fn kind_of_result(result: &Json) -> (r: Option<u16>)
    ensures
        r == announced_kind(result@),
{
    if result.get("protocolVersion").is_some() || result.get("capabilities").is_some() {
        Some(SERVER_ANNOUNCEMENT_KIND)
    } else if result.get("tools").is_some() {
        Some(TOOLS_LIST_KIND)
    } else if result.get("resources").is_some() {
        Some(RESOURCES_LIST_KIND)
    } else if result.get("resourceTemplates").is_some() {
        Some(RESOURCETEMPLATES_LIST_KIND)
    } else if result.get("prompts").is_some() {
        Some(PROMPTS_LIST_KIND)
    } else {
        None
    }
}

/// The kinds of the events that announce a server and what it offers.
pub open spec fn announcement_kinds() -> Seq<u16> {
    seq![
        SERVER_ANNOUNCEMENT_KIND,
        TOOLS_LIST_KIND,
        RESOURCES_LIST_KIND,
        RESOURCETEMPLATES_LIST_KIND,
        PROMPTS_LIST_KIND,
    ]
}

/// The tags of the events that ask for the deletion of every announcement, one event each.
pub fn deletion_tags() -> (r: Vec<Tag>)
    ensures
        tag_views(r@) == Seq::new(
            announcement_kinds().len(),
            |i: int| value_tag("k"@, decimal(announcement_kinds()[i] as nat)),
        ),
{
    let mut out: Vec<Tag> = Vec::new();
    assert(tag_views(out@) =~= Seq::<Seq<Seq<char>>>::empty());
    push_tag(&mut out, deletion_tag(SERVER_ANNOUNCEMENT_KIND));
    push_tag(&mut out, deletion_tag(TOOLS_LIST_KIND));
    push_tag(&mut out, deletion_tag(RESOURCES_LIST_KIND));
    push_tag(&mut out, deletion_tag(RESOURCETEMPLATES_LIST_KIND));
    push_tag(&mut out, deletion_tag(PROMPTS_LIST_KIND));
    assert(tag_views(out@) =~= Seq::new(
        announcement_kinds().len(),
        |i: int| value_tag("k"@, decimal(announcement_kinds()[i] as nat)),
    ));
    out
}

fn deletion_tag(kind: u16) -> (r: Tag)
    ensures
        r@ == value_tag("k"@, decimal(kind as nat)),
{
    Tag::with_value("k", decimal_text(kind as u64).as_str())
}

/// What is needed for the tags of the first response to a client.
#[derive(Debug, PartialEq, Eq)]
pub struct CommonTagsSnapshot {
    /// Who the server is.
    pub server_info: Option<ServerInfo>,
    /// Tags that were added to the common ones.
    pub extra_common_tags: Vec<Tag>,
    /// Tags of the features that the server supports.
    pub internal_common_tags: Vec<Tag>,
    /// Whether the server encrypts.
    pub encryption_mode: EncryptionMode,
    /// Which gift wraps the server uses.
    pub gift_wrap_mode: GiftWrapMode,
}

/// Model of [`CommonTagsSnapshot`].
pub struct SnapshotV {
    pub info: Option<InfoV>,
    pub encryption: EncryptionMode,
    pub gift_wrap: GiftWrapMode,
    pub extra: Seq<Seq<Seq<char>>>,
    pub internal: Seq<Seq<Seq<char>>>,
}

impl View for CommonTagsSnapshot {
    type V = SnapshotV;

    open spec fn view(&self) -> SnapshotV {
        SnapshotV {
            info: opt_info(self.server_info),
            encryption: self.encryption_mode,
            gift_wrap: self.gift_wrap_mode,
            extra: tag_views(self.extra_common_tags@),
            internal: tag_views(self.internal_common_tags@),
        }
    }
}

impl SnapshotV {
    /// The tags of a first response: how the server encrypts, its name, what was added, and its
    /// features.
    pub open spec fn response_tags(self) -> Seq<Seq<Seq<char>>> {
        encryption_tags(self.encryption, self.gift_wrap) + (match self.info {
            Some(i) => tag_for(NAME_TAG@, i.name),
            None => Seq::empty(),
        }) + self.extra + self.internal
    }
}

impl CommonTagsSnapshot {
    /// Appends the tags of a first response.
    pub fn append_common_response_tags(&self, tags: &mut Vec<Tag>)
        ensures
            tag_views(final(tags)@) == tag_views(old(tags)@) + self@.response_tags(),
    {
        let ghost before = tag_views(tags@);
        append_tags(tags, &encryption_tag_list(self.encryption_mode, self.gift_wrap_mode));
        if let Some(info) = &self.server_info {
            push_value_tag(tags, NAME_TAG, &info.name);
        }
        append_tags(tags, &self.extra_common_tags);
        append_tags(tags, &self.internal_common_tags);
        assert(tag_views(tags@) =~= before + self@.response_tags());
    }
}

/// The server is signalled to be initialized at most once by failures, and the notification that
/// the session is open is dispatched with every answer to `initialize` and with nothing else.
pub proof fn reactions_law(m: ManagerV, response: MessageV)
    ensures
        ({
            let (after, r) = m.reaction(response);
            &&& r.dispatch is Some ==> r.dispatch == Some(own_message(initialized_notification()))
                && r.signal && after.initialized
            &&& response is ErrorResponse ==> r.publish is None && r.dispatch is None && r.signal
                == !m.initialized && after.initialized
            &&& r.publish matches Some(a) ==> response is Response && a.tags
                == m.announcement_tags(a.kind)
            &&& after.common_tags() == m.common_tags()
        }),
{
}

/// A server says that it encrypts unless it does not, and that it understands ephemeral gift wraps
/// if it then also accepts them; it says nothing else by these tags.
pub proof fn encryption_tags_say_what_is_supported(
    encryption: EncryptionMode,
    gift_wrap: GiftWrapMode,
    tag: Seq<Seq<char>>,
)
    ensures
        encryption_tags(encryption, gift_wrap).contains(tag) <==> encryption
            != EncryptionMode::Disabled && (tag == flag_tag(SUPPORT_ENCRYPTION@) || (tag == flag_tag(
            SUPPORT_ENCRYPTION_EPHEMERAL@,
        ) && gift_wrap != GiftWrapMode::Persistent)),
        encryption_tags(encryption, gift_wrap).no_duplicates(),
{
    reveal_strlit("support_encryption");
    reveal_strlit("support_encryption_ephemeral");
    assert(SUPPORT_ENCRYPTION@.len() == 18);
    assert(SUPPORT_ENCRYPTION_EPHEMERAL@.len() == 28);
    let a = flag_tag(SUPPORT_ENCRYPTION@);
    let b = flag_tag(SUPPORT_ENCRYPTION_EPHEMERAL@);
    assert(a[0] != b[0]);
    let tags = encryption_tags(encryption, gift_wrap);
    if encryption != EncryptionMode::Disabled {
        assert(tags[0] == a);
        if gift_wrap != GiftWrapMode::Persistent {
            assert(tags[1] == b);
        }
    }
}

/// The tags that introduce a server are those that say who it is and how it encrypts, those that
/// it was given and those for its features, and no others.
pub proof fn common_tags_are_complete(m: ManagerV, tag: Seq<Seq<char>>)
    ensures
        m.common_tags().contains(tag) <==> (m.info matches Some(i) && ((i.name matches Some(v)
            && tag == value_tag("name"@, v)) || (i.about matches Some(v) && tag == value_tag(
            "about"@,
            v,
        )) || (i.website matches Some(v) && tag == value_tag("website"@, v)) || (i.picture matches Some(
            v,
        ) && tag == value_tag("picture"@, v)))) || encryption_tags(
            m.encryption,
            m.gift_wrap,
        ).contains(tag) || m.extra.contains(tag) || m.internal.contains(tag),
        m.snapshot().response_tags().contains(tag) <==> (m.info matches Some(i) && (i.name matches Some(
            v,
        ) && tag == value_tag("name"@, v))) || encryption_tags(m.encryption, m.gift_wrap).contains(
            tag,
        ) || m.extra.contains(tag) || m.internal.contains(tag),
{
    let e = encryption_tags(m.encryption, m.gift_wrap);
    let none = Seq::<Seq<Seq<char>>>::empty();
    if let Some(i) = m.info {
        tag_for_contains("name"@, i.name, tag);
        tag_for_contains("about"@, i.about, tag);
        tag_for_contains("website"@, i.website, tag);
        tag_for_contains("picture"@, i.picture, tag);
        let a = tag_for(NAME_TAG@, i.name);
        let b = tag_for(ABOUT_TAG@, i.about);
        let c = tag_for(WEBSITE_TAG@, i.website);
        let d = tag_for(PICTURE_TAG@, i.picture);
        sum_contains(a, b, tag);
        sum_contains(a + b, c, tag);
        sum_contains(a + b + c, d, tag);
        sum_contains(e, a, tag);
        sum_contains(e + a, m.extra, tag);
        sum_contains(e + a + m.extra, m.internal, tag);
    } else {
        sum_contains(e, none, tag);
        sum_contains(e + none, m.extra, tag);
        sum_contains(e + none + m.extra, m.internal, tag);
    }
    let info = info_tags(m.info);
    sum_contains(info, e, tag);
    sum_contains(info + e, m.extra, tag);
    sum_contains(info + e + m.extra, m.internal, tag);
}

proof fn tag_for_contains(name: Seq<char>, value: Option<Seq<char>>, tag: Seq<Seq<char>>)
    ensures
        tag_for(name, value).contains(tag) <==> (value matches Some(v) && tag == value_tag(name, v)),
{
    if let Some(v) = value {
        assert(tag_for(name, value)[0] == value_tag(name, v));
    }
}

proof fn sum_contains(a: Seq<Seq<Seq<char>>>, b: Seq<Seq<Seq<char>>>, tag: Seq<Seq<char>>)
    ensures
        (a + b).contains(tag) <==> a.contains(tag) || b.contains(tag),
{
    if a.contains(tag) {
        assert((a + b)[a.index_of(tag)] == tag);
    }
    if b.contains(tag) {
        assert((a + b)[a.len() + b.index_of(tag)] == tag);
    }
    if (a + b).contains(tag) {
        let i = (a + b).index_of(tag);
        if i < a.len() {
            assert(a[i] == tag);
        } else {
            assert(b[i - a.len()] == tag);
        }
    }
}

/// The announcement of the server carries the tags that introduce it and the prices; a list carries
/// the prices only.
pub proof fn announcements_carry_their_tags(m: ManagerV, kind: u16)
    ensures
        kind == SERVER_ANNOUNCEMENT_KIND ==> m.announcement_tags(kind).len()
            == m.common_tags().len() + m.pricing.len() && m.common_tags().is_prefix_of(
            m.announcement_tags(kind),
        ) && m.announcement_tags(kind).skip(m.common_tags().len() as int) == m.pricing,
        kind != SERVER_ANNOUNCEMENT_KIND ==> m.announcement_tags(kind) == m.pricing,
{
    assert((m.common_tags() + m.pricing).skip(m.common_tags().len() as int) =~= m.pricing);
}

/// A list is announced under its name with its items in their order and with the prices, and the
/// kind by which it is announced is the one that its content is recognised as.
pub proof fn lists_are_recognised(m: ManagerV, items: Seq<Json>)
    ensures
        ({
            let tools = list_announcement(m, TOOLS_LIST_KIND, "tools"@, items);
            let resources = list_announcement(m, RESOURCES_LIST_KIND, "resources"@, items);
            let prompts = list_announcement(m, PROMPTS_LIST_KIND, "prompts"@, items);
            let templates = list_announcement(
                m,
                RESOURCETEMPLATES_LIST_KIND,
                "resourceTemplates"@,
                items,
            );
            &&& tools.content.field("tools"@) == Some(JsonV::Array(item_views(items)))
            &&& resources.content.field("resources"@) == Some(JsonV::Array(item_views(items)))
            &&& prompts.content.field("prompts"@) == Some(JsonV::Array(item_views(items)))
            &&& templates.content.field("resourceTemplates"@) == Some(
                JsonV::Array(item_views(items)),
            )
            &&& announced_kind(tools.content) == Some(tools.kind) && tools.kind == 11317
            &&& announced_kind(resources.content) == Some(resources.kind) && resources.kind
                == 11318
            &&& announced_kind(templates.content) == Some(templates.kind) && templates.kind
                == 11319
            &&& announced_kind(prompts.content) == Some(prompts.kind) && prompts.kind == 11320
            &&& tools.tags == m.pricing && resources.tags == m.pricing && prompts.tags == m.pricing
                && templates.tags == m.pricing
            &&& item_views(items).len() == items.len()
        }),
{
    reveal_strlit("protocolVersion");
    reveal_strlit("capabilities");
    reveal_strlit("tools");
    reveal_strlit("resources");
    reveal_strlit("resourceTemplates");
    reveal_strlit("prompts");
    assert("protocolVersion"@.len() == 15 && "capabilities"@.len() == 12 && "tools"@.len() == 5
        && "resources"@.len() == 9 && "resourceTemplates"@.len() == 17 && "prompts"@.len() == 7);
    reveal_with_fuel(crate::json::member_from, 2);
}

/// What the server does with an answer to one of its own requests: the result of `initialize` and
/// every list are announced as they are; the former also opens the session and lets the lists be
/// asked for. What is recognised as nothing changes nothing.
pub proof fn answers_are_announced_as_they_are(m: ManagerV, response: MessageV)
    ensures
        ({
            let (after, r) = m.reaction(response);
            let result = response->Response_result;
            &&& r.publish is Some <==> response is Response && announced_kind(result) is Some
            &&& r.publish matches Some(a) ==> a.content == result && Some(a.kind)
                == announced_kind(result)
            &&& response is Response && (result.field("protocolVersion"@) is Some || result.field(
                "capabilities"@,
            ) is Some) ==> r.signal && after.initialized && r.publish is Some
                && r.publish.unwrap().kind == SERVER_ANNOUNCEMENT_KIND && (r.dispatch is Some
                <==> m.dispatching)
            &&& r.signal && response is Response ==> result.field("protocolVersion"@) is Some
                || result.field("capabilities"@) is Some
            &&& r.dispatch matches Some(d) ==> d.message is Notification && d.message.method()
                == Some("notifications/initialized"@) && d.client_pubkey == "announcement"@
                && d.event_id == "announcement"@ && !d.is_encrypted
            &&& !(response is Response) && !(response is ErrorResponse) ==> after == m && !r.signal
                && r.publish is None && r.dispatch is None
        }),
{
}

/// The requests that the server puts to itself are all its own and plain: first the one that opens
/// a session, with the version asked for, then one for each list.
pub proof fn own_requests_are_own(version: Seq<char>, i: int)
    ensures
        ({
            let first = own_request(INITIALIZE_METHOD@, Some(initialize_params(version)));
            &&& first.message.method() == Some("initialize"@)
            &&& initialize_params(version).field("protocolVersion"@) == Some(JsonV::Text(version))
            &&& first.message.id() == Some(JsonV::Text("announcement"@))
            &&& first.client_pubkey == "announcement"@ && !first.is_encrypted
        }),
        list_requests().len() == 4,
        list_requests()[0].message.method() == Some("tools/list"@),
        list_requests()[1].message.method() == Some("resources/list"@),
        list_requests()[2].message.method() == Some("resources/templates/list"@),
        list_requests()[3].message.method() == Some("prompts/list"@),
        0 <= i < 4 ==> list_requests()[i].message is Request && list_requests()[i].message.id()
            == Some(JsonV::Text("announcement"@)) && list_requests()[i].client_pubkey
            == "announcement"@ && list_requests()[i].event_id == "announcement"@
            && !list_requests()[i].is_encrypted && list_requests()[i].message->Request_params
            is None,
{
    reveal_with_fuel(crate::json::member_from, 2);
}

/// A deletion asks for every kind of announcement that there is, once, and for nothing else.
pub proof fn deletion_covers_all_announcements(kind: u16)
    ensures
        announcement_kinds().contains(kind) <==> 11316 <= kind <= 11320,
        announcement_kinds().no_duplicates(),
{
    let k = announcement_kinds();
    assert(k[0] == 11316 && k[1] == 11317 && k[2] == 11318 && k[3] == 11319 && k[4] == 11320);
}

} // verus!
