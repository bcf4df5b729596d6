# buff_crawler

A price crawler for CS:GO item markets (Buff and Youpin) with a small web
service that shows the stored prices.

`src/` is the verified library (Verus):

- `text`: searching, splitting, trimming and replacing text, with their
  specifications over `Seq<char>`.
- `item`: items and prices, and the normalisation of item descriptions
  (proved idempotent).
- `json`: the JSON document model that the market responses are read into,
  and the reading of a JSON text into it through serde_json.
- `market`: what is read from a Buff or Youpin response — the priced items to
  store and what to report; every stored item is proved to be normalised.
- `crawl`, `crawler`: the crawlers, their messages, pauses and page requests.
- `http`: the service's answers and the retry flow of a request.
- `db`: the decisions of the price store, and a model of its tables on which
  "an item is added once" and "one price per item and day" are proved.
- `watch`: the watch list.
- `utils`: endpoints, the clock and the random pause source.

`app/` runs it: HTTP requests, the SQLite store, the crawl loops and the web
server.
