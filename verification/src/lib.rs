pub mod address;
pub mod arp;
pub mod benchmark;
pub mod bytes;
pub mod centrifuge;
pub mod cjdns;
pub mod dhcp;
pub mod dns;
pub mod dropbox;
pub mod fmt;
pub mod fmt_text;
pub mod http;
pub mod icmp;
pub mod input;
pub mod ip;
pub mod link;
pub mod noise;
pub mod packet;
pub mod sandbox;
pub mod scan;
pub mod scripts;
pub mod socket;
pub mod ssdp;
pub mod strategy;
pub mod tcp;
pub mod tls;
pub mod udp;
