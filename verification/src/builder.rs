//! Configuration of an agent, and the numbers and names of agents' threads.
use vstd::prelude::*;
use vstd::string::*;

verus! {

/// An option of curl's multi handle.
#[derive(Debug, Clone, Copy, PartialEq, Eq)]
pub enum MultiOption {
    /// The greatest number of connections at a time.
    MaxTotalConnections(usize),
    /// The greatest number of connections to one host at a time.
    MaxHostConnections(usize),
    /// The size of the connection cache.
    MaxConnects(usize),
}

/// Builder for configuring and spawning an agent.
#[derive(Debug)]
pub struct AgentBuilder {
    max_connections: usize,
    max_connections_per_host: usize,
    connection_cache_size: usize,
}

/// The limits that a builder holds. A limit of 0 is no limit.
pub struct Limits {
    /// The greatest number of connections at a time.
    pub max_connections: usize,
    /// The greatest number of connections to one host at a time.
    pub max_connections_per_host: usize,
    /// The size of the connection cache.
    pub connection_cache_size: usize,
}

impl Limits {
    /// The options to set on the multi handle, in order: one for each limit
    /// that is not 0, since curl takes a cache of size 0 as an unlimited one.
    pub open spec fn options(self) -> Seq<MultiOption> {
        let total = if self.max_connections > 0 {
            seq![MultiOption::MaxTotalConnections(self.max_connections)]
        } else {
            seq![]
        };
        let host = if self.max_connections_per_host > 0 {
            seq![MultiOption::MaxHostConnections(self.max_connections_per_host)]
        } else {
            seq![]
        };
        let cache = if self.connection_cache_size > 0 {
            seq![MultiOption::MaxConnects(self.connection_cache_size)]
        } else {
            seq![]
        };
        total + host + cache
    }
}

impl View for AgentBuilder {
    type V = Limits;

    closed spec fn view(&self) -> Limits {
        Limits {
            max_connections: self.max_connections,
            max_connections_per_host: self.max_connections_per_host,
            connection_cache_size: self.connection_cache_size,
        }
    }
}

impl Default for AgentBuilder {
    fn default() -> (builder: Self)
        ensures
            builder@ == (Limits {
                max_connections: 0,
                max_connections_per_host: 0,
                connection_cache_size: 0,
            }),
    {
        AgentBuilder {
            max_connections: 0,
            max_connections_per_host: 0,
            connection_cache_size: 0,
        }
    }
}

impl AgentBuilder {
    /// Limits the number of connections at a time.
    pub fn max_connections(self, max: usize) -> (builder: Self)
        ensures
            builder@ == (Limits { max_connections: max, ..self@ }),
    {
        AgentBuilder { max_connections: max, ..self }
    }

    /// Limits the number of connections to one host at a time.
    pub fn max_connections_per_host(self, max: usize) -> (builder: Self)
        ensures
            builder@ == (Limits { max_connections_per_host: max, ..self@ }),
    {
        AgentBuilder { max_connections_per_host: max, ..self }
    }

    /// Sets the size of the connection cache.
    pub fn connection_cache_size(self, size: usize) -> (builder: Self)
        ensures
            builder@ == (Limits { connection_cache_size: size, ..self@ }),
    {
        AgentBuilder { connection_cache_size: size, ..self }
    }

    /// The same configuration again.
    pub(crate) fn copied(&self) -> (builder: Self)
        ensures
            builder@ == self@,
    {
        AgentBuilder {
            max_connections: self.max_connections,
            max_connections_per_host: self.max_connections_per_host,
            connection_cache_size: self.connection_cache_size,
        }
    }

    /// The options to set on the agent's multi handle, in order.
    pub fn multi_options(&self) -> (options: Vec<MultiOption>)
        ensures
            options@ == self@.options(),
    {
        let mut options: Vec<MultiOption> = Vec::new();
        if self.max_connections > 0 {
            options.push(MultiOption::MaxTotalConnections(self.max_connections));
        }
        if self.max_connections_per_host > 0 {
            options.push(MultiOption::MaxHostConnections(self.max_connections_per_host));
        }
        // A cache of size 0 would be an unlimited one.
        if self.connection_cache_size > 0 {
            options.push(MultiOption::MaxConnects(self.connection_cache_size));
        }
        options
    }
}

/// The character of a decimal digit.
pub open spec fn digit(n: nat) -> char {
    (('0' as u32) + n) as char
}

/// A number in decimal notation.
pub open spec fn decimal(n: nat) -> Seq<char>
    decreases n,
{
    if n < 10 {
        seq![digit(n)]
    } else {
        decimal(n / 10).push(digit(n % 10))
    }
}

/// The decimal digit of a number below ten.
fn digit_str(n: usize) -> (text: &'static str)
    requires
        n < 10,
    ensures
        text@ == seq![digit(n as nat)],
{
    proof {
        reveal_strlit("0");
        reveal_strlit("1");
        reveal_strlit("2");
        reveal_strlit("3");
        reveal_strlit("4");
        reveal_strlit("5");
        reveal_strlit("6");
        reveal_strlit("7");
        reveal_strlit("8");
        reveal_strlit("9");
    }
    match n {
        0 => "0",
        1 => "1",
        2 => "2",
        3 => "3",
        4 => "4",
        5 => "5",
        6 => "6",
        7 => "7",
        8 => "8",
        _ => "9",
    }
}

/// The prefix `text`, followed by `n` in decimal notation.
fn append_decimal(text: &str, n: usize) -> (result: String)
    ensures
        result@ == text@ + decimal(n as nat),
    decreases n,
{
    if n < 10 {
        let mut result = text.to_owned();
        result.append(digit_str(n));
        result
    } else {
        let mut result = append_decimal(text, n / 10);
        result.append(digit_str(n % 10));
        assert(result@ =~= text@ + decimal(n as nat));
        result
    }
}

/// The name of the thread of the agent with the given number.
pub open spec fn thread_name(number: nat) -> Seq<char> {
    "isahc-agent-"@ + decimal(number)
}

/// The name of the thread of the agent with the given number.
pub fn agent_thread_name(number: usize) -> (name: String)
    ensures
        name@ == thread_name(number as nat),
{
    append_decimal("isahc-agent-", number)
}

/// The number that follows a number, where the greatest is followed by 0.
pub open spec fn next_number(number: usize) -> usize {
    if number == usize::MAX {
        0
    } else {
        (number + 1) as usize
    }
}

/// Takes the number of a new agent from the counter of agents.
pub fn take_agent_number(counter: &mut usize) -> (number: usize)
    ensures
        number == *old(counter),
        *final(counter) == next_number(*old(counter)),
        *old(counter) < usize::MAX ==> *final(counter) == *old(counter) + 1,
        *old(counter) == usize::MAX ==> *final(counter) == 0,
{
    let number = *counter;
    *counter = number.wrapping_add(1);
    number
}

} // verus!
