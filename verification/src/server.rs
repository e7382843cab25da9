//! Server tuning: HTTP/1 and HTTP/2 connection settings. Each setting left
//! unset keeps the HTTP stack's own default.

use vstd::prelude::*;
use crate::duration::Duration;

verus! {

/// HTTP/2 connection tuning.
pub struct Http2Config {
    pub max_concurrent_streams: Option<u32>,
    pub keep_alive_interval: Option<Duration>,
    pub keep_alive_timeout: Option<Duration>,
    pub initial_stream_window_size: Option<u32>,
    pub initial_connection_window_size: Option<u32>,
    pub max_frame_size: Option<u32>,
    pub max_header_list_size: Option<u32>,
}

impl Http2Config {
    /// Every setting unset.
    pub fn new() -> (c: Self)
        ensures
            c.max_concurrent_streams is None,
            c.keep_alive_interval is None,
            c.keep_alive_timeout is None,
            c.initial_stream_window_size is None,
            c.initial_connection_window_size is None,
            c.max_frame_size is None,
            c.max_header_list_size is None,
    {
        Http2Config {
            max_concurrent_streams: None,
            keep_alive_interval: None,
            keep_alive_timeout: None,
            initial_stream_window_size: None,
            initial_connection_window_size: None,
            max_frame_size: None,
            max_header_list_size: None,
        }
    }

    /// Sets the maximum number of concurrent streams per connection.
    pub fn max_concurrent_streams(self, max: u32) -> (c: Self)
        ensures
            c.max_concurrent_streams == Some(max),
            c.keep_alive_interval == self.keep_alive_interval,
            c.keep_alive_timeout == self.keep_alive_timeout,
            c.initial_stream_window_size == self.initial_stream_window_size,
            c.initial_connection_window_size == self.initial_connection_window_size,
            c.max_frame_size == self.max_frame_size,
            c.max_header_list_size == self.max_header_list_size,
    {
        Http2Config { max_concurrent_streams: Some(max), ..self }
    }

    /// Sets the interval between keep-alive pings.
    pub fn keep_alive_interval(self, interval: Duration) -> (c: Self)
        ensures
            c.max_concurrent_streams == self.max_concurrent_streams,
            c.keep_alive_interval == Some(interval),
            c.keep_alive_timeout == self.keep_alive_timeout,
            c.initial_stream_window_size == self.initial_stream_window_size,
            c.initial_connection_window_size == self.initial_connection_window_size,
            c.max_frame_size == self.max_frame_size,
            c.max_header_list_size == self.max_header_list_size,
    {
        Http2Config { keep_alive_interval: Some(interval), ..self }
    }

    /// Sets how long to wait for a keep-alive ping acknowledgement.
    pub fn keep_alive_timeout(self, timeout: Duration) -> (c: Self)
        ensures
            c.max_concurrent_streams == self.max_concurrent_streams,
            c.keep_alive_interval == self.keep_alive_interval,
            c.keep_alive_timeout == Some(timeout),
            c.initial_stream_window_size == self.initial_stream_window_size,
            c.initial_connection_window_size == self.initial_connection_window_size,
            c.max_frame_size == self.max_frame_size,
            c.max_header_list_size == self.max_header_list_size,
    {
        Http2Config { keep_alive_timeout: Some(timeout), ..self }
    }

    /// Sets the initial flow-control window of a stream.
    pub fn initial_stream_window_size(self, bytes: u32) -> (c: Self)
        ensures
            c.max_concurrent_streams == self.max_concurrent_streams,
            c.keep_alive_interval == self.keep_alive_interval,
            c.keep_alive_timeout == self.keep_alive_timeout,
            c.initial_stream_window_size == Some(bytes),
            c.initial_connection_window_size == self.initial_connection_window_size,
            c.max_frame_size == self.max_frame_size,
            c.max_header_list_size == self.max_header_list_size,
    {
        Http2Config { initial_stream_window_size: Some(bytes), ..self }
    }

    /// Sets the initial flow-control window of a connection.
    pub fn initial_connection_window_size(self, bytes: u32) -> (c: Self)
        ensures
            c.max_concurrent_streams == self.max_concurrent_streams,
            c.keep_alive_interval == self.keep_alive_interval,
            c.keep_alive_timeout == self.keep_alive_timeout,
            c.initial_stream_window_size == self.initial_stream_window_size,
            c.initial_connection_window_size == Some(bytes),
            c.max_frame_size == self.max_frame_size,
            c.max_header_list_size == self.max_header_list_size,
    {
        Http2Config { initial_connection_window_size: Some(bytes), ..self }
    }

    /// Sets the maximum frame size.
    pub fn max_frame_size(self, bytes: u32) -> (c: Self)
        ensures
            c.max_concurrent_streams == self.max_concurrent_streams,
            c.keep_alive_interval == self.keep_alive_interval,
            c.keep_alive_timeout == self.keep_alive_timeout,
            c.initial_stream_window_size == self.initial_stream_window_size,
            c.initial_connection_window_size == self.initial_connection_window_size,
            c.max_frame_size == Some(bytes),
            c.max_header_list_size == self.max_header_list_size,
    {
        Http2Config { max_frame_size: Some(bytes), ..self }
    }

    /// Sets the maximum size of a header list.
    pub fn max_header_list_size(self, bytes: u32) -> (c: Self)
        ensures
            c.max_concurrent_streams == self.max_concurrent_streams,
            c.keep_alive_interval == self.keep_alive_interval,
            c.keep_alive_timeout == self.keep_alive_timeout,
            c.initial_stream_window_size == self.initial_stream_window_size,
            c.initial_connection_window_size == self.initial_connection_window_size,
            c.max_frame_size == self.max_frame_size,
            c.max_header_list_size == Some(bytes),
    {
        Http2Config { max_header_list_size: Some(bytes), ..self }
    }
}

/// HTTP/1 connection tuning.
pub struct Http1Config {
    pub keep_alive: Option<bool>,
    pub max_headers: Option<usize>,
}

impl Http1Config {
    /// Every setting unset.
    pub fn new() -> (c: Self)
        ensures
            c.keep_alive is None,
            c.max_headers is None,
    {
        Http1Config { keep_alive: None, max_headers: None }
    }

    /// Turns connection keep-alive on or off.
    pub fn keep_alive(self, enabled: bool) -> (c: Self)
        ensures
            c.keep_alive == Some(enabled),
            c.max_headers == self.max_headers,
    {
        Http1Config { keep_alive: Some(enabled), ..self }
    }

    /// Sets the maximum number of request headers.
    pub fn max_headers(self, max: usize) -> (c: Self)
        ensures
            c.keep_alive == self.keep_alive,
            c.max_headers == Some(max),
    {
        Http1Config { max_headers: Some(max), ..self }
    }
}

} // verus!
