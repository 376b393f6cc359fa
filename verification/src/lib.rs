//! A minimal HTTP/1.1 request-serving core: a method validator, a
//! line-oriented request parser, a response builder, an ordered handler
//! chain with a static-file fallback, and a worker-pool job queue
//! model, together with the small apps that plug into the chain.
//!
//! All request/response logic lives here, verified; the surrounding
//! process (sockets, files, threads) hands this crate plain values.

pub mod calculator_app;
pub mod decimal;
pub mod headers;
pub mod http_app;
pub mod http_method;
pub mod http_request;
pub mod http_response;
pub mod pool;
pub mod query;
pub mod server;
pub mod task;
pub mod tasks_app;
pub mod text;
pub mod to_do_app;

pub use calculator_app::CalculatorApp;
pub use headers::HeaderMap;
pub use http_app::HandlerError;
pub use http_app::HttpApp;
pub use http_method::HttpMethod;
pub use http_method::ParseError;
pub use http_request::HttpRequest;
pub use http_response::HttpResponse;
pub use pool::PoolWork;
pub use pool::ThreadPool;
pub use task::Task;
pub use tasks_app::TaskRoute;
pub use tasks_app::TasksApp;
pub use to_do_app::ToDoApp;
