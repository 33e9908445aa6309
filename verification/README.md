# photo_scraper

Downloads a photo of every player listed in `squads.json`, from Wikipedia, and keeps a report
of the outcome for each player (`report.json`) and a list of the photos that are missing
(`missing.csv`).

`src/` is the library: the rules of the scraper, verified with Verus.

- `args`: the command line
- `scrape`: the ordinary run over all teams
- `lookup`: the lookup of one player, step by step
- `wiki`: requests to the MediaWiki API and what its answers say
- `download`: one download, with its retries
- `retry`, `google_retry`, `redownload`: the runs that try again
- `google`: image search pages
- `report`, `csv`: the report and the list of missing photos
- `names`: file names
- `text`: text primitives

`app/` is the program around it: files, network, waiting and printing. It carries out the step
that the library asks for and hands back what happened.
