//! Core logic of a terminal browser for message queues (RabbitMQ, Kafka, MQTT):
//! filter expressions, queue comparison, profile forms, configuration and more.

pub mod benchmark;
pub mod comparison;
pub mod detail;
pub mod diff;
pub mod dump;
pub mod config;
pub mod deletion;
pub mod exchanges;
pub mod filters;
pub mod highlight;
pub mod import;
pub mod forms;
pub mod groups;
pub mod json;
pub mod keyed;
pub mod kafka;
pub mod keys;
pub mod model;
pub mod mqtt;
pub mod operations;
pub mod order;
pub mod payload;
pub mod protobuf;
pub mod profiles;
pub mod popup;
pub mod queue_detail;
pub mod rabbitmq;
pub mod results;
pub mod schema;
pub mod schedule;
pub mod sending;
pub mod screens;
pub mod session;
pub mod template;
pub mod text;
pub mod theme;
pub mod timestamp;
pub mod updater;
