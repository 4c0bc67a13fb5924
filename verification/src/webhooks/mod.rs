//! Webhooks: what an event looks like to each platform, how a delivery is
//! signed, and the one retry that a failed delivery gets.

pub mod delivery;
pub mod dispatch;
pub mod payload;
pub mod settings;

pub use delivery::{delivery_request, delivery_succeeded, hmac_signature, DeliveryRequest};
pub use dispatch::{
    dispatch_event, process_retry_queue, schedule_retry, subscribers, webhook_subscribed_to_event,
    Dispatcher, PendingDelivery, PlannedDelivery,
};
pub use payload::{
    discord_color_for_event, discord_payload, payload_from_system_event, slack_payload,
    test_payload, webhook_body, WebhookPayload,
};
