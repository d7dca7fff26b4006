//! The stored configuration and what follows from it: the address of the link
//! and the cache of device tables of contents.
use vstd::prelude::*;

use crate::number::{
    bytes_are_two_digits_each, bytes_hex, decimal, decimal_of, digit_value, write_bytes,
    written_bytes_are_unique,
};
use crate::text::{contains_char, opt_text, starts_with};
use crate::text_map::TextMap;

verus! {

/// The connection timeout in milliseconds where none is configured.
pub const DEFAULT_TIMEOUT_MS: u32 = 1000;

/// The configuration that is kept between runs.
#[derive(Debug, Clone)]
pub struct Config {
    /// The selected Crazyflie.
    pub uri: String,
    /// Tables of contents by the checksum of the device, in hexadecimal.
    pub toc_cache: TextMap<String>,
    /// The connection timeout, if one was set.
    pub timeout_ms: Option<u32>,
    /// The radio addresses that are scanned.
    pub addresses: Vec<String>,
}

/// The addresses that are scanned where none are configured.
pub fn default_addresses() -> (r: Vec<String>)
    ensures
        r@.len() == 1,
        r@[0]@ == "E7E7E7E7E7"@,
{
    let mut list: Vec<String> = Vec::new();
    list.push("E7E7E7E7E7".to_owned());
    list
}

impl Default for Config {
    fn default() -> (config: Self)
        ensures
            config.uri@ == Seq::<char>::empty(),
            config.toc_cache@ == Map::<Seq<char>, String>::empty(),
            config.timeout_ms is None,
            config.addresses@.len() == 1,
            config.addresses@[0]@ == "E7E7E7E7E7"@,
    {
        Config {
            uri: String::new(),
            toc_cache: TextMap::new(),
            timeout_ms: None,
            addresses: default_addresses(),
        }
    }
}

impl Config {
    /// The timeout that applies to a connection.
    pub open spec fn timeout(self) -> u32 {
        match self.timeout_ms {
            Some(t) => t,
            None => DEFAULT_TIMEOUT_MS,
        }
    }

    /// The timeout that applies to a connection.
    pub fn effective_timeout(&self) -> (ms: u32)
        ensures
            ms == self.timeout(),
    {
        match self.timeout_ms {
            Some(t) => t,
            None => DEFAULT_TIMEOUT_MS,
        }
    }

    /// The link address to connect to: to the Crazyflie that was asked for, or
    /// else to the selected one.
    pub open spec fn link(self, requested: Option<Seq<char>>) -> Seq<char> {
        link_uri(
            match requested {
                Some(u) => u,
                None => self.uri@,
            },
            self.timeout_ms,
        )
    }

    /// Whether `after` differs from this configuration at most in the selected
    /// Crazyflie, which is `uri` there.
    pub open spec fn keeps(self, uri: String, after: Config) -> bool {
        &&& after.uri == uri
        &&& after.toc_cache == self.toc_cache
        &&& after.timeout_ms == self.timeout_ms
        &&& after.addresses == self.addresses
    }

    /// Keeps a Crazyflie for later commands.
    pub fn keep_link(&mut self, uri: String)
        ensures
            old(self).keeps(uri, *final(self)),
    {
        self.uri = uri;
    }

    /// The link address to connect to.
    pub fn connection_uri(&self, requested: &Option<String>) -> (uri: String)
        ensures
            uri@ == self.link(opt_text(*requested)),
    {
        let base = match requested {
            Some(u) => u.clone(),
            None => self.uri.clone(),
        };
        if self.timeout_ms.is_some() && !starts_with(base.as_str(), "usb://") {
            let timeout = decimal(self.effective_timeout() as u64);
            let sep = if contains_char(base.as_str(), '?') {
                "&timeout="
            } else {
                "?timeout="
            };
            base.concat(sep).concat(timeout.as_str())
        } else {
            base
        }
    }
}

/// A link address with the configured timeout as a query parameter. USB links
/// take none, and without a configured timeout the address stays as it is.
pub open spec fn link_uri(base: Seq<char>, timeout_ms: Option<u32>) -> Seq<char> {
    match timeout_ms {
        Some(ms) => if "usb://"@.is_prefix_of(base) {
            base
        } else if base.contains('?') {
            base + "&timeout="@ + decimal_of(ms as nat)
        } else {
            base + "?timeout="@ + decimal_of(ms as nat)
        },
        None => base,
    }
}

// ---- Tables of contents ----------------------------------------------------

/// Device tables of contents, kept in the configuration unless that is switched
/// off. There is one of them for a configuration; whoever shares it shares the
/// tables, so it is not copied.
#[derive(Debug)]
pub struct ConfigTocCache {
    pub config: Config,
    pub no_toc_cache: bool,
}

/// The key under which the table of a device with this checksum is kept.
pub open spec fn toc_key(crc32: Seq<u8>) -> Seq<char> {
    bytes_hex(crc32, false)
}

/// What one call of `store_toc` makes of a cache.
pub open spec fn stored(
    before: ConfigTocCache,
    crc32: Seq<u8>,
    toc: Seq<char>,
    after: ConfigTocCache,
) -> bool {
    &&& after.no_toc_cache == before.no_toc_cache
    &&& after.config.uri == before.config.uri
    &&& after.config.timeout_ms == before.config.timeout_ms
    &&& after.config.addresses == before.config.addresses
    &&& before.no_toc_cache ==> after.config.toc_cache@ == before.config.toc_cache@
    &&& !before.no_toc_cache ==> exists|text: String|
        text@ == toc && after.config.toc_cache@ == #[trigger] before.config.toc_cache@.insert(
            toc_key(crc32),
            text,
        )
}

impl ConfigTocCache {
    /// The table that is handed out for a checksum.
    pub open spec fn toc(self, crc32: Seq<u8>) -> Option<Seq<char>> {
        if !self.no_toc_cache && self.config.toc_cache@.dom().contains(toc_key(crc32)) {
            Some(self.config.toc_cache@[toc_key(crc32)]@)
        } else {
            None
        }
    }

    /// Whether a stored table changes the configuration.
    pub open spec fn writes_out(self) -> bool {
        !self.no_toc_cache
    }

    /// A cache over `config`.
    pub open spec fn over(config: Config, no_toc_cache: bool) -> ConfigTocCache {
        ConfigTocCache { config, no_toc_cache }
    }

    /// A cache over `config`; with `no_toc_cache` it neither reads nor writes it.
    pub fn new(config: Config, no_toc_cache: bool) -> (cache: Self)
        ensures
            cache == ConfigTocCache::over(config, no_toc_cache),
    {
        ConfigTocCache { config, no_toc_cache }
    }

    /// The table that was stored for a checksum.
    pub fn get_toc(&self, crc32: &[u8]) -> (toc: Option<String>)
        ensures
            opt_text(toc) == self.toc(crc32@),
    {
        if self.no_toc_cache {
            return None;
        }
        let key = write_bytes(crc32, false);
        match self.config.toc_cache.get(key.as_str()) {
            Some(toc) => Some(toc.clone()),
            None => None,
        }
    }

    /// Stores the table for a checksum. Returns whether the configuration has
    /// changed and is to be written out.
    pub fn store_toc(&mut self, crc32: &[u8], toc: &str) -> (changed: bool)
        ensures
            changed == old(self).writes_out(),
            stored(*old(self), crc32@, toc@, *final(self)),
    {
        if self.no_toc_cache {
            return false;
        }
        let key = write_bytes(crc32, false);
        let text = toc.to_owned();
        let ghost kept = text;
        self.config.toc_cache.insert(key, text);
        assert(kept@ == toc@ && self.config.toc_cache@ == old(self).config.toc_cache@.insert(
            toc_key(crc32@),
            kept,
        ));
        true
    }
}

// ---- Laws ------------------------------------------------------------------

/// A stored table is handed out again for its own checksum.
pub proof fn stored_toc_is_found(
    before: ConfigTocCache,
    crc32: Seq<u8>,
    toc: Seq<char>,
    after: ConfigTocCache,
)
    requires
        stored(before, crc32, toc, after),
        !before.no_toc_cache,
    ensures
        after.toc(crc32) == Some(toc),
{
}

/// Storing a table changes what is handed out for no other checksum.
pub proof fn other_tocs_are_kept(
    before: ConfigTocCache,
    crc32: Seq<u8>,
    toc: Seq<char>,
    after: ConfigTocCache,
    other: Seq<u8>,
)
    requires
        stored(before, crc32, toc, after),
        other != crc32,
    ensures
        after.toc(other) == before.toc(other),
{
    if toc_key(other) == toc_key(crc32) {
        written_bytes_are_unique(other, crc32, false);
    }
}

/// A cache that is switched off hands out nothing, whatever is stored.
pub proof fn disabled_cache_is_empty(
    before: ConfigTocCache,
    crc32: Seq<u8>,
    toc: Seq<char>,
    after: ConfigTocCache,
    other: Seq<u8>,
)
    requires
        before.no_toc_cache,
        stored(before, crc32, toc, after),
    ensures
        before.toc(other) is None,
        after.toc(other) is None,
        after.config.toc_cache@ == before.config.toc_cache@,
{
}

/// A Crazyflie that was kept is the one that later commands connect to. One that
/// is asked for by its address still goes before it.
pub proof fn kept_link_is_used(before: Config, uri: String, after: Config, requested: Seq<char>)
    requires
        before.keeps(uri, after),
    ensures
        after.link(None) == link_uri(uri@, before.timeout_ms),
        after.link(Some(requested)) == before.link(Some(requested)),
{
}

/// Storing tables changes nothing about where commands connect to: the selection
/// holds until another Crazyflie is kept.
pub proof fn stored_tocs_keep_the_link(
    before: ConfigTocCache,
    crc32: Seq<u8>,
    toc: Seq<char>,
    after: ConfigTocCache,
    requested: Option<Seq<char>>,
)
    requires
        stored(before, crc32, toc, after),
    ensures
        after.config.link(requested) == before.config.link(requested),
{
}

/// Only the text after the address that the user selected ever changes.
pub proof fn link_uri_extends_the_selection(base: Seq<char>, timeout_ms: Option<u32>)
    ensures
        base.is_prefix_of(link_uri(base, timeout_ms)),
        timeout_ms is None ==> link_uri(base, timeout_ms) == base,
        "usb://"@.is_prefix_of(base) ==> link_uri(base, timeout_ms) == base,
{
    assert(base =~= link_uri(base, timeout_ms).subrange(0, base.len() as int));
}

/// A configured timeout is used as it is, and without one a second applies.
pub proof fn configured_timeouts_apply(config: Config)
    ensures
        config.timeout_ms matches Some(ms) ==> config.timeout() == ms,
        config.timeout_ms is None ==> config.timeout() == 1000,
{
}

/// The Crazyflie that was asked for is the one that is connected, whatever is
/// selected, and the selected one where none was asked for.
pub proof fn requested_link_goes_first(config: Config, requested: Seq<char>)
    ensures
        requested.is_prefix_of(config.link(Some(requested))),
        config.uri@.is_prefix_of(config.link(None)),
        config.timeout_ms is None ==> config.link(Some(requested)) == requested && config.link(None)
            == config.uri@,
        config.link(Some(requested)) == link_uri(requested, config.timeout_ms),
        config.link(None) == link_uri(config.uri@, config.timeout_ms),
{
    link_uri_extends_the_selection(requested, config.timeout_ms);
    link_uri_extends_the_selection(config.uri@, config.timeout_ms);
}

/// A configured timeout stands at the end of every link but those on USB, as
/// `timeout=` with the milliseconds, behind the question mark that opens the
/// query, or behind an ampersand where the link has a query already.
pub proof fn links_end_in_the_timeout(base: Seq<char>, ms: u32)
    requires
        !"usb://"@.is_prefix_of(base),
    ensures
        ({
            let link = link_uri(base, Some(ms));
            let mark = link[base.len() as int];
            &&& link == base.push(mark) + "timeout="@ + decimal_of(ms as nat)
            &&& mark == '&' <==> base.contains('?')
            &&& mark == '?' <==> !base.contains('?')
        }),
{
    reveal_strlit("&timeout=");
    reveal_strlit("?timeout=");
    reveal_strlit("timeout=");
    let link = link_uri(base, Some(ms));
    assert("&timeout="@ =~= seq!['&'] + "timeout="@);
    assert("?timeout="@ =~= seq!['?'] + "timeout="@);
    let mark = link[base.len() as int];
    assert(link =~= base.push(mark) + "timeout="@ + decimal_of(ms as nat));
}

/// Keeping a link changes the selected Crazyflie and nothing else.
pub proof fn keeping_a_link_changes_nothing_else(before: Config, uri: String, after: Config)
    requires
        before.keeps(uri, after),
    ensures
        after == (Config { uri, ..before }),
{
}

/// Storing a table changes the tables and nothing else, and no table at all
/// unless the configuration is to be written out.
pub proof fn storing_changes_tables_alone(
    before: ConfigTocCache,
    crc32: Seq<u8>,
    toc: Seq<char>,
    after: ConfigTocCache,
)
    requires
        stored(before, crc32, toc, after),
    ensures
        after.config.uri == before.config.uri,
        after.config.timeout_ms == before.config.timeout_ms,
        after.config.addresses == before.config.addresses,
        after.no_toc_cache == before.no_toc_cache,
        before.writes_out() <==> !before.no_toc_cache,
        !before.writes_out() ==> after.config.toc_cache@ == before.config.toc_cache@,
        before.writes_out() ==> after.toc(crc32) == Some(toc),
{
}

/// Tables are found under the checksum in small hexadecimal digits, two for each
/// byte.
pub proof fn tables_are_kept_under_their_checksum(cache: ConfigTocCache, crc32: Seq<u8>, i: int)
    requires
        0 <= i < crc32.len(),
    ensures
        digit_value(toc_key(crc32)[2 * i]) * 16 + digit_value(toc_key(crc32)[2 * i + 1])
            == crc32[i],
        toc_key(crc32).len() == 2 * crc32.len(),
        !('A' <= toc_key(crc32)[2 * i] <= 'Z') && !('A' <= toc_key(crc32)[2 * i + 1] <= 'Z'),
        cache.toc(crc32) is Some <==> !cache.no_toc_cache && cache.config.toc_cache@.dom().contains(
            toc_key(crc32),
        ),
        cache.toc(crc32) matches Some(toc) ==> toc == cache.config.toc_cache@[toc_key(crc32)]@,
{
    bytes_are_two_digits_each(crc32, false, i);
}

/// A new cache hands out the tables of its configuration, and none where it is
/// switched off.
pub proof fn new_caches_hold_the_configured_tables(config: Config, crc32: Seq<u8>)
    ensures
        ConfigTocCache::over(config, true).toc(crc32) is None,
        ConfigTocCache::over(config, false).toc(crc32) is Some
            <==> config.toc_cache@.dom().contains(toc_key(crc32)),
        ConfigTocCache::over(config, false).config == config,
        ConfigTocCache::over(config, true).config == config,
{
}

}
