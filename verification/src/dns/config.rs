//! The `[dns]` section of the shared config file. Everything is optional;
//! a command-line choice always wins over the file, which wins over the
//! defaults.

use vstd::prelude::*;

use crate::dns::resolver::{Provider, Transport};

verus! {

#[derive(Debug, Clone)]
pub struct DnsConfig {
    pub providers: Option<Vec<Provider>>,
    pub transport: Option<Transport>,
}

impl Default for DnsConfig {
    fn default() -> (c: DnsConfig)
        ensures
            c.providers is None,
            c.transport is None,
    {
        DnsConfig { providers: None, transport: None }
    }
}

fn copy_providers(v: &Vec<Provider>) -> (r: Vec<Provider>)
    ensures
        r@ == v@,
{
    let mut r: Vec<Provider> = Vec::new();
    let mut i: usize = 0;
    while i < v.len()
        invariant
            i <= v@.len(),
            r@ == v@.take(i as int),
        decreases v@.len() - i,
    {
        r.push(v[i]);
        i = i + 1;
        assert(r@ =~= v@.take(i as int));
    }
    assert(r@ =~= v@);
    r
}

/// The providers to use: the command line's if given, else the config
/// file's, else Cloudflare alone.
pub fn resolve_providers(cli: Option<Vec<Provider>>, config: &DnsConfig) -> (r: Vec<Provider>)
    ensures
        cli is Some ==> r@ == cli->0@,
        cli is None && config.providers is Some ==> r@ == config.providers->0@,
        cli is None && config.providers is None ==> r@ == seq![Provider::Cloudflare],
{
    match cli {
        Some(c) => c,
        None => match &config.providers {
            Some(configured) => copy_providers(configured),
            None => {
                let mut r: Vec<Provider> = Vec::new();
                r.push(Provider::Cloudflare);
                assert(r@ =~= seq![Provider::Cloudflare]);
                r
            },
        },
    }
}

/// The transport to use, with the same precedence: command line, config
/// file, then DoH.
pub fn resolve_transport(cli: Option<Transport>, config: &DnsConfig) -> (t: Transport)
    ensures
        t == match cli {
            Some(c) => c,
            None => match config.transport {
                Some(c) => c,
                None => Transport::Doh,
            },
        },
{
    match cli {
        Some(c) => c,
        None => match config.transport {
            Some(c) => c,
            None => Transport::Doh,
        },
    }
}

} // verus!
