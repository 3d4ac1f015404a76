use vstd::prelude::*;

verus! {

/// The settings of a server.
#[derive(Clone, Copy, Debug)]
pub struct Config {
    pub max_clients: usize,
    /// How long a login may take, in seconds.
    pub connect_timeout: u64,
    /// How long a client may stay silent, in seconds.
    pub idle_timeout: u64,
    pub port: u16,
    /// What a client has to know to be let in, if anything.
    pub password: Option<[u8; 16]>,
    pub min_send_queue_size: usize,
    pub max_send_queue_size: usize,
    pub max_command_payload: usize,
}

impl Default for Config {
    fn default() -> (r: Config)
        ensures
            r == (Config {
                max_clients: 0,
                connect_timeout: 0,
                idle_timeout: 0,
                port: 0,
                password: None,
                min_send_queue_size: 0,
                max_send_queue_size: 0,
                max_command_payload: 0,
            }),
    {
        Config {
            max_clients: 0,
            connect_timeout: 0,
            idle_timeout: 0,
            port: 0,
            password: None,
            min_send_queue_size: 0,
            max_send_queue_size: 0,
            max_command_payload: 0,
        }
    }
}

impl Config {
    /// The settings for the file at a path. They are the same whatever the path is: the file is
    /// not read.
    pub fn from_file<P>(_path: P) -> (r: Config)
        ensures
            r == (Config {
                max_clients: 50,
                connect_timeout: 5,
                idle_timeout: 30,
                port: 4046,
                password: None,
                min_send_queue_size: 262144,
                max_send_queue_size: 8388608,
                max_command_payload: 5242880,
            }),
    {
        Config {
            max_clients: 50,
            connect_timeout: 5,
            idle_timeout: 30,
            port: 4046,
            password: None,
            min_send_queue_size: 262144,
            max_send_queue_size: 8388608,
            max_command_payload: 5242880,
        }
    }
}

} // verus!
