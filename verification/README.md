# eBay marketing library

Keeps an eBay seller's discounts running: it reports the promotions that are
about to expire, plans what to do about each of them, and words the requests
that carry the plan out. The library under `src/` is written in Verus, and its
functions are proved to meet their contracts, but for the seven small ones that
call chrono and the standard library (see below). The programs under `app/` do
the input and output around it.

## What the library does

| Module | Subject |
| --- | --- |
| `config`, `account` | settings, hosts, access tokens and their renewal |
| `api` | requests to the marketing service, retries, errors |
| `fetch` | going through all pages of promotions |
| `expiry` | which promotions expire within a window, and in which order |
| `listing` | the listings that a promotion covers |
| `plan` | the actions that a promotion calls for |
| `order` | the order in which actions are carried out |
| `execution` | carrying out actions so that none that succeeded is repeated |
| `request` | the requests that carry out an action |
| `tally`, `report` | counts, and the lines that are printed |
| `json`, `model`, `text`, `time` | JSON values, records, texts, points in time |

Properties that span several functions are stated and proved as `law_...`
proof functions beside the functions that they speak of.

## What is taken on trust

`time` calls chrono for the clock, for reading and writing RFC 3339 dates, and
for calendar arithmetic; `config` calls `str::to_lowercase`. The functions that
make these calls are not proved: what is claimed of the calls stands in their
contracts, and is believed.

## Programs

The name that the program is started under selects what it does:
`discount-manager` reports and plans, `ebay_refresh_token` prints a new access
token with its middle left out, and any other name renews the token in `.env`.

The settings come from the environment or from a `.env` file:

```
EBAY_CLIENT_ID=your_client_id
EBAY_CLIENT_SECRET=your_client_secret
EBAY_REFRESH_TOKEN=your_refresh_token
EBAY_ACCESS_TOKEN=your_access_token
EBAY_ENVIRONMENT=production
```
