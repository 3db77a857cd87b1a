//! Configuration of one change feed: which topic it reads, under which
//! subscription, for which controller, and for how long a session lasts.

use vstd::prelude::*;

verus! {

/// The two kinds of change that a controller is told about.
#[derive(Debug, Clone, Copy, PartialEq, Eq)]
pub enum ChangeKind {
    Network,
    Member,
}

/// The word that names a kind in topic and subscription names.
pub open spec fn kind_word(k: ChangeKind) -> Seq<char> {
    match k {
        ChangeKind::Network => "network"@,
        ChangeKind::Member => "member"@,
    }
}

/// Topic that changes of kind `k` are published on.
pub open spec fn topic_for(k: ChangeKind) -> Seq<char> {
    "controller-"@ + kind_word(k) + "-change-stream"@
}

/// Subscription that controller `id` reads changes of kind `k` through.
pub open spec fn subscription_for(id: Seq<char>, k: ChangeKind) -> Seq<char> {
    id + "-"@ + kind_word(k) + "-change-subscription"@
}

/// Broker-side filter that keeps the messages addressed to controller `id`.
pub open spec fn filter_for(id: Seq<char>) -> Seq<char> {
    "attributes.controller_id = '"@ + id + "'"@
}

impl ChangeKind {
    pub fn word(&self) -> (r: &'static str)
        ensures
            r@ == kind_word(*self),
    {
        match self {
            ChangeKind::Network => "network",
            ChangeKind::Member => "member",
        }
    }

    /// Name of the topic this kind of change is published on.
    pub fn topic_name(&self) -> (r: String)
        ensures
            r@ == topic_for(*self),
    {
        "controller-".to_owned().concat(self.word()).concat("-change-stream")
    }

    /// Name of the subscription through which `controller_id` reads this kind.
    pub fn subscription_name(&self, controller_id: &str) -> (r: String)
        ensures
            r@ == subscription_for(controller_id@, *self),
    {
        controller_id.to_owned().concat("-").concat(self.word()).concat("-change-subscription")
    }
}

/// Why a feed could not be configured.
#[derive(Debug, Clone, Copy, PartialEq, Eq)]
pub enum ConfigError {
    /// The session timeout is zero.
    ZeroTimeout,
    /// The controller identifier is empty.
    EmptyControllerId,
    /// The topic name is empty.
    EmptyTopicName,
    /// The subscription name is empty.
    EmptySubscriptionName,
}

/// The error, if any, that a configuration with these values meets first.
pub open spec fn config_error(
    controller_id: Seq<char>,
    topic_name: Seq<char>,
    subscription_name: Seq<char>,
    timeout_secs: u64,
) -> Option<ConfigError> {
    if timeout_secs == 0 {
        Some(ConfigError::ZeroTimeout)
    } else if controller_id.len() == 0 {
        Some(ConfigError::EmptyControllerId)
    } else if topic_name.len() == 0 {
        Some(ConfigError::EmptyTopicName)
    } else if subscription_name.len() == 0 {
        Some(ConfigError::EmptySubscriptionName)
    } else {
        None
    }
}

/// Immutable settings of one feed. Message ordering is always enabled.
pub struct FeedConfig {
    pub controller_id: String,
    pub topic_name: String,
    pub subscription_name: String,
    pub timeout_secs: u64,
}

impl FeedConfig {
    /// A well-formed configuration: no name is empty and the timeout is positive.
    pub open spec fn wf(&self) -> bool {
        config_error(self.controller_id@, self.topic_name@, self.subscription_name@, self.timeout_secs)
            is None
    }

    /// Checks and stores the settings of a feed.
    pub fn new(
        controller_id: &str,
        topic_name: &str,
        subscription_name: &str,
        timeout_secs: u64,
    ) -> (r: Result<FeedConfig, ConfigError>)
        ensures
            match config_error(controller_id@, topic_name@, subscription_name@, timeout_secs) {
                Some(e) => r == Err::<FeedConfig, ConfigError>(e),
                None => r matches Ok(c) && c.wf() && c.controller_id@ == controller_id@
                    && c.topic_name@ == topic_name@ && c.subscription_name@ == subscription_name@
                    && c.timeout_secs == timeout_secs,
            },
    {
        if timeout_secs == 0 {
            Err(ConfigError::ZeroTimeout)
        } else if controller_id.is_empty() {
            Err(ConfigError::EmptyControllerId)
        } else if topic_name.is_empty() {
            Err(ConfigError::EmptyTopicName)
        } else if subscription_name.is_empty() {
            Err(ConfigError::EmptySubscriptionName)
        } else {
            Ok(
                FeedConfig {
                    controller_id: controller_id.to_owned(),
                    topic_name: topic_name.to_owned(),
                    subscription_name: subscription_name.to_owned(),
                    timeout_secs,
                },
            )
        }
    }

    /// The configuration of a typed listener: the kind's fixed topic and the
    /// subscription derived from the controller identifier.
    pub fn for_kind(kind: ChangeKind, controller_id: &str, timeout_secs: u64) -> (r: Result<
        FeedConfig,
        ConfigError,
    >)
        ensures
            match config_error(
                controller_id@,
                topic_for(kind),
                subscription_for(controller_id@, kind),
                timeout_secs,
            ) {
                Some(e) => r == Err::<FeedConfig, ConfigError>(e),
                None => r matches Ok(c) && c.wf() && c.controller_id@ == controller_id@
                    && c.topic_name@ == topic_for(kind) && c.subscription_name@ == subscription_for(
                    controller_id@,
                    kind,
                ) && c.timeout_secs == timeout_secs,
            },
    {
        let topic = kind.topic_name();
        let subscription = kind.subscription_name(controller_id);
        FeedConfig::new(controller_id, topic.as_str(), subscription.as_str(), timeout_secs)
    }

    /// The broker-side filter expression of this feed.
    pub fn filter_expression(&self) -> (r: String)
        ensures
            r@ == filter_for(self.controller_id@),
    {
        "attributes.controller_id = '".to_owned().concat(self.controller_id.as_str()).concat("'")
    }

    /// Message ordering by ordering key is always requested.
    pub fn ordering_enabled(&self) -> (r: bool)
        ensures
            r,
    {
        true
    }

    /// Whether a message whose `controller_id` attribute is `attribute`
    /// belongs to this feed.
    pub fn accepts(&self, attribute: &String) -> (r: bool)
        ensures
            r == (attribute@ == self.controller_id@),
    {
        *attribute == self.controller_id
    }
}

} // verus!
