pub mod active;
pub mod activity;
pub mod app_events;
pub mod balance;
pub mod balance_alert;
pub mod cache_keepalive;
pub mod clock;
pub mod dashboard;
pub mod double;
pub mod duration_text;
pub mod elide;
pub mod float64;
pub mod float_text;
pub mod guide;
pub mod http;
pub mod icns;
pub mod icon;
pub mod json;
pub mod log_filter;
pub mod logs;
pub mod model_capabilities;
pub mod model_test;
pub mod models;
pub mod name_list;
pub mod number;
pub mod oauth;
pub mod peers;
pub mod presets;
pub mod pricing_script;
pub mod quota;
pub mod relay_form;
pub mod scheduler;
pub mod shell;
pub mod single_instance;
pub mod table;
pub mod temp_keys;
pub mod text;
pub mod token_amount;
pub mod tokens;
pub mod tray;
pub mod update_view;
pub mod upstream_detection;
pub mod upstream_editor;
pub mod upstream_transfer;
pub mod upstreams;
pub mod url_text;
pub mod window_state;
