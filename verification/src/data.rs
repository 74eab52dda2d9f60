pub use attribute_name::AttributeName;
pub use attribute_value::AttributeValue;
pub use element_id::ElementId;
pub use event::EventName;
pub use event::KorvinClosure;
pub use event_listener::EventListenerWrapper;
pub use tag_name::TagName;
pub use value::Value;

pub mod attribute_name;
pub mod attribute_value;
pub mod element_id;
pub mod event;
pub mod event_listener;
pub mod tag_name;
pub mod value;
