# jp_router

Administration service of a home router, with its logic verified by Verus.

- `src/` is the verified library: reading the dnsmasq lease file (sorted
  stably by IP address, the router's own lease included), IP address
  parsing and printing, ACME DNS-01 challenge authorisation, the Cloud DNS
  record changes made for challenges and for dynamic DNS, the assembly of
  network interfaces from netlink attributes, and the page model of the web
  front end.
- `app/` is the HTTP server around it (axum, reqwest, netlink, Google Cloud
  credentials, configuration loading, the dynamic DNS timer).
- `tests/` runs the library on concrete inputs.
